//! What a flow is given, what it carries along, and what it comes to.

use vstd::prelude::*;
use crate::host::{pair_list, HttpRequest, RequestView};
use crate::reading::{candidate_list, UdpCandidate, UdpCandidateView};
use crate::text::{text_list, text_option};

verus! {

/// The texts that a flow reads, wherever they come from: what somebody typed or what the flow
/// put aside.
#[derive(Debug)]
pub struct Texts {
    /// The one row that somebody pressed Add on.
    pub chosen_address: Option<String>,
    /// The account that a device inherits, or that is being browsed: its `Email` property.
    pub saved_email: Option<String>,
    /// The same, its `Password` property.
    pub saved_password: Option<String>,
    pub address: Option<String>,
    pub email: Option<String>,
    pub password: Option<String>,
    pub local_seed: Option<String>,
    pub remote_seed: Option<String>,
    pub cookie: Option<String>,
    pub key: Option<String>,
    pub iv: Option<String>,
    pub sig: Option<String>,
}

/// What the texts are.
pub struct TextsView {
    pub chosen_address: Option<Seq<char>>,
    pub saved_email: Option<Seq<char>>,
    pub saved_password: Option<Seq<char>>,
    pub address: Option<Seq<char>>,
    pub email: Option<Seq<char>>,
    pub password: Option<Seq<char>>,
    pub local_seed: Option<Seq<char>>,
    pub remote_seed: Option<Seq<char>>,
    pub cookie: Option<Seq<char>>,
    pub key: Option<Seq<char>>,
    pub iv: Option<Seq<char>>,
    pub sig: Option<Seq<char>>,
}

impl View for Texts {
    type V = TextsView;

    open spec fn view(&self) -> TextsView {
        TextsView {
            chosen_address: text_option(self.chosen_address),
            saved_email: text_option(self.saved_email),
            saved_password: text_option(self.saved_password),
            address: text_option(self.address),
            email: text_option(self.email),
            password: text_option(self.password),
            local_seed: text_option(self.local_seed),
            remote_seed: text_option(self.remote_seed),
            cookie: text_option(self.cookie),
            key: text_option(self.key),
            iv: text_option(self.iv),
            sig: text_option(self.sig),
        }
    }
}

/// No texts at all.
pub open spec fn no_texts() -> TextsView {
    TextsView {
        chosen_address: None,
        saved_email: None,
        saved_password: None,
        address: None,
        email: None,
        password: None,
        local_seed: None,
        remote_seed: None,
        cookie: None,
        key: None,
        iv: None,
        sig: None,
    }
}

impl Default for Texts {
    fn default() -> (r: Texts)
        ensures
            r@ == no_texts(),
    {
        Texts {
            chosen_address: None,
            saved_email: None,
            saved_password: None,
            address: None,
            email: None,
            password: None,
            local_seed: None,
            remote_seed: None,
            cookie: None,
            key: None,
            iv: None,
            sig: None,
        }
    }
}

impl Texts {
    /// The same texts again.
    pub fn copy(&self) -> (r: Texts)
        ensures
            r@ == self@,
    {
        Texts {
            chosen_address: self.chosen_address.clone(),
            saved_email: self.saved_email.clone(),
            saved_password: self.saved_password.clone(),
            address: self.address.clone(),
            email: self.email.clone(),
            password: self.password.clone(),
            local_seed: self.local_seed.clone(),
            remote_seed: self.remote_seed.clone(),
            cookie: self.cookie.clone(),
            key: self.key.clone(),
            iv: self.iv.clone(),
            sig: self.sig.clone(),
        }
    }
}

/// A device that was logged in to, and what came of it.
#[derive(Debug)]
pub struct Adopted {
    pub address: String,
    pub label: String,
    pub verified: String,
}

/// What is known of a device that was logged in to.
pub struct AdoptedView {
    pub address: Seq<char>,
    pub label: Seq<char>,
    pub verified: Seq<char>,
}

impl View for Adopted {
    type V = AdoptedView;

    open spec fn view(&self) -> AdoptedView {
        AdoptedView { address: self.address@, label: self.label@, verified: self.verified@ }
    }
}

impl Adopted {
    /// The same device again.
    pub fn copy(&self) -> (r: Adopted)
        ensures
            r@ == self@,
    {
        Adopted {
            address: self.address.clone(),
            label: self.label.clone(),
            verified: self.verified.clone(),
        }
    }
}

/// What is known of several devices.
pub open spec fn adopted_list(rows: Seq<Adopted>) -> Seq<AdoptedView> {
    rows.map_values(|a: Adopted| a@)
}

/// What a flow carries from one step to the next.
#[derive(Debug)]
pub struct SetupState {
    pub phase: Option<String>,
    pub texts: Texts,
    /// Somebody opened an account that exists already.
    pub browse: Option<bool>,
    /// The place in the queue.
    pub at: usize,
    pub seq: Option<i64>,
    /// The addresses to log in to, in order.
    pub queue: Vec<String>,
    /// The addresses that said they speak a protocol this driver does not.
    pub left_out: Vec<String>,
    /// Why each device that did not work did not.
    pub skipped: Vec<String>,
    pub adopted: Vec<Adopted>,
    /// What answered the discovery broadcast.
    pub udp_candidates: Vec<UdpCandidate>,
}

/// What a state holds.
pub struct StateView {
    pub phase: Option<Seq<char>>,
    pub texts: TextsView,
    pub browse: Option<bool>,
    pub at: usize,
    pub seq: Option<i64>,
    pub queue: Seq<Seq<char>>,
    pub left_out: Seq<Seq<char>>,
    pub skipped: Seq<Seq<char>>,
    pub adopted: Seq<AdoptedView>,
    pub udp_candidates: Seq<UdpCandidateView>,
}

impl View for SetupState {
    type V = StateView;

    open spec fn view(&self) -> StateView {
        StateView {
            phase: text_option(self.phase),
            texts: self.texts@,
            browse: self.browse,
            at: self.at,
            seq: self.seq,
            queue: text_list(self.queue@),
            left_out: text_list(self.left_out@),
            skipped: text_list(self.skipped@),
            adopted: adopted_list(self.adopted@),
            udp_candidates: candidate_list(self.udp_candidates@),
        }
    }
}

/// The state of a flow that has not begun.
pub open spec fn fresh() -> StateView {
    StateView {
        phase: None,
        texts: no_texts(),
        browse: None,
        at: 0,
        seq: None,
        queue: Seq::empty(),
        left_out: Seq::empty(),
        skipped: Seq::empty(),
        adopted: Seq::empty(),
        udp_candidates: Seq::empty(),
    }
}

impl Default for SetupState {
    fn default() -> (r: SetupState)
        ensures
            r@ == fresh(),
    {
        let r: SetupState = SetupState {
            phase: None,
            texts: Texts::default(),
            browse: None,
            at: 0,
            seq: None,
            queue: Vec::new(),
            left_out: Vec::new(),
            skipped: Vec::new(),
            adopted: Vec::new(),
            udp_candidates: Vec::new(),
        };
        proof {
            assert(r@.queue =~= fresh().queue);
            assert(r@.left_out =~= fresh().left_out);
            assert(r@.skipped =~= fresh().skipped);
            assert(r@.adopted =~= fresh().adopted);
            assert(r@.udp_candidates =~= fresh().udp_candidates);
        }
        r
    }
}

/// Several texts again.
pub(crate) fn copy_texts(texts: &Vec<String>) -> (r: Vec<String>)
    ensures
        text_list(r@) == text_list(texts@),
{
    let mut r: Vec<String> = Vec::new();
    let mut i: usize = 0;
    while i < texts.len()
        invariant
            i <= texts@.len(),
            r@.len() == i,
            forall|k: int| 0 <= k < i ==> (#[trigger] r@[k])@ == texts@[k]@,
        decreases texts@.len() - i,
    {
        r.push(texts[i].clone());
        i += 1;
    }
    proof {
        assert(text_list(r@) =~= text_list(texts@));
    }
    r
}

/// Several answers to the broadcast again.
pub(crate) fn copy_candidates(rows: &Vec<UdpCandidate>) -> (r: Vec<UdpCandidate>)
    ensures
        candidate_list(r@) == candidate_list(rows@),
{
    let mut r: Vec<UdpCandidate> = Vec::new();
    let mut i: usize = 0;
    while i < rows.len()
        invariant
            i <= rows@.len(),
            r@.len() == i,
            forall|k: int| 0 <= k < i ==> (#[trigger] r@[k])@ == rows@[k]@,
        decreases rows@.len() - i,
    {
        r.push(rows[i].copy());
        i += 1;
    }
    proof {
        assert(candidate_list(r@) =~= candidate_list(rows@));
    }
    r
}

/// Several devices again.
fn copy_adopted(rows: &Vec<Adopted>) -> (r: Vec<Adopted>)
    ensures
        adopted_list(r@) == adopted_list(rows@),
{
    let mut r: Vec<Adopted> = Vec::new();
    let mut i: usize = 0;
    while i < rows.len()
        invariant
            i <= rows@.len(),
            r@.len() == i,
            forall|k: int| 0 <= k < i ==> (#[trigger] r@[k])@ == rows@[k]@,
        decreases rows@.len() - i,
    {
        r.push(rows[i].copy());
        i += 1;
    }
    proof {
        assert(adopted_list(r@) =~= adopted_list(rows@));
    }
    r
}

impl SetupState {
    /// The same state again.
    pub fn copy(&self) -> (r: SetupState)
        ensures
            r@ == self@,
    {
        SetupState {
            phase: self.phase.clone(),
            texts: self.texts.copy(),
            browse: self.browse,
            at: self.at,
            seq: self.seq,
            queue: copy_texts(&self.queue),
            left_out: copy_texts(&self.left_out),
            skipped: copy_texts(&self.skipped),
            adopted: copy_adopted(&self.adopted),
            udp_candidates: copy_candidates(&self.udp_candidates),
        }
    }
}

/// What a step of a flow is given: what somebody typed, or the reply to what was fetched.
#[derive(Debug)]
pub struct SetupInput {
    pub texts: Texts,
    pub status: Option<u64>,
    pub response_bytes: Vec<u8>,
    pub response_headers: Vec<(String, String)>,
    /// Why there is no reply, where there is none.
    pub error: Option<String>,
}

/// What an input says.
pub struct InputView {
    pub texts: TextsView,
    pub status: Option<u64>,
    pub response_bytes: Seq<u8>,
    pub response_headers: Seq<(Seq<char>, Seq<char>)>,
    pub error: Option<Seq<char>>,
}

impl View for SetupInput {
    type V = InputView;

    open spec fn view(&self) -> InputView {
        InputView {
            texts: self.texts@,
            status: self.status,
            response_bytes: self.response_bytes@,
            response_headers: pair_list(self.response_headers@),
            error: text_option(self.error),
        }
    }
}

impl Default for SetupInput {
    fn default() -> (r: SetupInput)
        ensures
            r@ == (InputView {
                texts: no_texts(),
                status: None,
                response_bytes: Seq::empty(),
                response_headers: Seq::empty(),
                error: None,
            }),
    {
        let r: SetupInput = SetupInput {
            texts: Texts::default(),
            status: None,
            response_bytes: Vec::new(),
            response_headers: Vec::new(),
            error: None,
        };
        proof {
            assert(r@.response_headers =~= Seq::<(Seq<char>, Seq<char>)>::empty());
            assert(r@.response_bytes =~= Seq::<u8>::empty());
        }
        r
    }
}

/// One thing to fill in.
#[derive(Debug)]
pub struct Field {
    pub name: String,
    pub label: String,
    pub kind: String,
    pub help: String,
    pub required: bool,
}

/// What a field says.
pub struct FieldView {
    pub name: Seq<char>,
    pub label: Seq<char>,
    pub kind: Seq<char>,
    pub help: Seq<char>,
    pub required: bool,
}

impl View for Field {
    type V = FieldView;

    open spec fn view(&self) -> FieldView {
        FieldView {
            name: self.name@,
            label: self.label@,
            kind: self.kind@,
            help: self.help@,
            required: self.required,
        }
    }
}

/// What several fields say.
pub open spec fn field_list(fields: Seq<Field>) -> Seq<FieldView> {
    fields.map_values(|f: Field| f@)
}

/// A device to adopt. Its properties are in the order of their names, each name once.
#[derive(Debug)]
pub struct Candidate {
    pub label: String,
    pub driver_id: String,
    pub properties: Vec<(String, String)>,
    pub verified: String,
}

/// What a candidate says.
pub struct CandidateView {
    pub label: Seq<char>,
    pub driver_id: Seq<char>,
    pub properties: Seq<(Seq<char>, Seq<char>)>,
    pub verified: Seq<char>,
}

impl View for Candidate {
    type V = CandidateView;

    open spec fn view(&self) -> CandidateView {
        CandidateView {
            label: self.label@,
            driver_id: self.driver_id@,
            properties: pair_list(self.properties@),
            verified: self.verified@,
        }
    }
}

/// What several candidates say.
pub open spec fn device_list(devices: Seq<Candidate>) -> Seq<CandidateView> {
    devices.map_values(|c: Candidate| c@)
}

/// What a flow does next.
#[derive(Debug)]
pub enum SetupStep {
    /// Ask somebody.
    Form { title: String, body: String, fields: Vec<Field> },
    /// Stop, and say why.
    Failed { reason: String },
    /// Ask a device, saying what is going on meanwhile.
    Fetch { request: HttpRequest, note: String },
    /// Adopt these, and say why the others were not.
    Done { devices: Vec<Candidate>, skipped: Vec<String> },
}

/// What a step says.
pub enum StepView {
    Form { title: Seq<char>, body: Seq<char>, fields: Seq<FieldView> },
    Failed { reason: Seq<char> },
    Fetch { request: RequestView, note: Seq<char> },
    Done { devices: Seq<CandidateView>, skipped: Seq<Seq<char>> },
}

impl View for SetupStep {
    type V = StepView;

    open spec fn view(&self) -> StepView {
        match *self {
            SetupStep::Form { title, body, fields } => StepView::Form {
                title: title@,
                body: body@,
                fields: field_list(fields@),
            },
            SetupStep::Failed { reason } => StepView::Failed { reason: reason@ },
            SetupStep::Fetch { request, note } => StepView::Fetch {
                request: request@,
                note: note@,
            },
            SetupStep::Done { devices, skipped } => StepView::Done {
                devices: device_list(devices@),
                skipped: text_list(skipped@),
            },
        }
    }
}

/// A step, and the state to come back with. Without a state the flow is over.
pub struct Turn {
    pub step: StepView,
    pub state: Option<StateView>,
}

/// A step of a flow came to `turn`.
pub open spec fn came_to(r: (SetupStep, Option<SetupState>), turn: Turn) -> bool {
    &&& r.0@ == turn.step
    &&& match r.1 {
        Some(state) => turn.state == Some(state@),
        None => turn.state is None,
    }
}

} // verus!
