//! Runs that ask and are answered.
//!
//! A run does no work outside itself. It reads a journal of replies from the start, and where the
//! journal ends it halts with the request to which the next reply belongs. Whoever drives it carries
//! the request out, adds the reply, and starts the run anew.

use vstd::prelude::*;

use crate::calls::{Request, RequestView};
use crate::config::{BranchConfig, Config};
use crate::fault::Fault;
use crate::llm::types::{
    AutoResolveDecision, ConflictOptionsDecision, ConflictResolutionProposal,
};
use crate::protection::types::{
    CommitSecurityReviewBatch, DeliveryDraft, SecurityContractVerificationDecision,
    SecurityReviewDecision, SignalFileSelection, SignalInvestigationDecision,
};
use crate::repo::{
    AheadBehind, AutoResolvedSync, CapturedConflict, CommandOutput, ConflictBlocks,
    ConflictFileContent, ConflictSnapshot, FileFacts, ResolvedFile, ResponseFacts,
    SyncPatchContext,
};
use crate::service::types::JobView;

verus! {

/// The reply to a request.
pub enum Reply {
    Done,
    Flag(bool),
    Text(String),
    Maybe(Option<String>),
    List(Vec<String>),
    Bytes(Vec<u8>),
    Output(CommandOutput),
    Distance(AheadBehind),
    Snapshot(ConflictSnapshot),
    Files(Vec<ConflictFileContent>),
    Blocks(ConflictBlocks),
    Patch(SyncPatchContext),
    Resolved(Vec<ResolvedFile>),
    Captured(CapturedConflict),
    Continued(AutoResolvedSync),
    Facts(FileFacts),
    Reviews(Option<CommitSecurityReviewBatch>),
    Contracts(Vec<SecurityContractVerificationDecision>),
    AutoResolve(AutoResolveDecision),
    Options(ConflictOptionsDecision),
    Proposal(ConflictResolutionProposal),
    Review(SecurityReviewDecision),
    Verification(SecurityContractVerificationDecision),
    Selection(SignalFileSelection),
    Investigation(SignalInvestigationDecision),
    Draft(Option<DeliveryDraft>),
    Settings(Config),
    Branch(BranchConfig),
    Job(JobView),
    Response(ResponseFacts),
    Failed(Fault),
}

/// Something that a reply can carry.
pub trait Answer: Sized {
    /// What a reply carries, where it is of this kind.
    spec fn in_reply(reply: Reply) -> Option<Self>;

    /// What a reply carries, where it is of this kind.
    fn read<'a>(reply: &'a Reply) -> (r: Option<&'a Self>)
        ensures
            match Self::in_reply(*reply) {
                Some(answer) => r matches Some(found) && *found == answer,
                None => r is None,
            },
    ;
}

impl Answer for () {
    open spec fn in_reply(reply: Reply) -> Option<()> {
        match reply {
            Reply::Done => Some(()),
            _ => None,
        }
    }

    fn read<'a>(reply: &'a Reply) -> (r: Option<&'a ()>) {
        match reply {
            Reply::Done => Some(&()),
            _ => None,
        }
    }
}

impl Answer for bool {
    open spec fn in_reply(reply: Reply) -> Option<bool> {
        match reply {
            Reply::Flag(flag) => Some(flag),
            _ => None,
        }
    }

    fn read<'a>(reply: &'a Reply) -> (r: Option<&'a bool>) {
        match reply {
            Reply::Flag(flag) => Some(flag),
            _ => None,
        }
    }
}

impl Answer for String {
    open spec fn in_reply(reply: Reply) -> Option<String> {
        match reply {
            Reply::Text(text) => Some(text),
            _ => None,
        }
    }

    fn read<'a>(reply: &'a Reply) -> (r: Option<&'a String>) {
        match reply {
            Reply::Text(text) => Some(text),
            _ => None,
        }
    }
}

impl Answer for Option<String> {
    open spec fn in_reply(reply: Reply) -> Option<Option<String>> {
        match reply {
            Reply::Maybe(text) => Some(text),
            _ => None,
        }
    }

    fn read<'a>(reply: &'a Reply) -> (r: Option<&'a Option<String>>) {
        match reply {
            Reply::Maybe(text) => Some(text),
            _ => None,
        }
    }
}

impl Answer for Vec<String> {
    open spec fn in_reply(reply: Reply) -> Option<Vec<String>> {
        match reply {
            Reply::List(list) => Some(list),
            _ => None,
        }
    }

    fn read<'a>(reply: &'a Reply) -> (r: Option<&'a Vec<String>>) {
        match reply {
            Reply::List(list) => Some(list),
            _ => None,
        }
    }
}

impl Answer for Vec<u8> {
    open spec fn in_reply(reply: Reply) -> Option<Vec<u8>> {
        match reply {
            Reply::Bytes(bytes) => Some(bytes),
            _ => None,
        }
    }

    fn read<'a>(reply: &'a Reply) -> (r: Option<&'a Vec<u8>>) {
        match reply {
            Reply::Bytes(bytes) => Some(bytes),
            _ => None,
        }
    }
}

impl Answer for CommandOutput {
    open spec fn in_reply(reply: Reply) -> Option<CommandOutput> {
        match reply {
            Reply::Output(output) => Some(output),
            _ => None,
        }
    }

    fn read<'a>(reply: &'a Reply) -> (r: Option<&'a CommandOutput>) {
        match reply {
            Reply::Output(output) => Some(output),
            _ => None,
        }
    }
}

impl Answer for AheadBehind {
    open spec fn in_reply(reply: Reply) -> Option<AheadBehind> {
        match reply {
            Reply::Distance(distance) => Some(distance),
            _ => None,
        }
    }

    fn read<'a>(reply: &'a Reply) -> (r: Option<&'a AheadBehind>) {
        match reply {
            Reply::Distance(distance) => Some(distance),
            _ => None,
        }
    }
}

impl Answer for ConflictSnapshot {
    open spec fn in_reply(reply: Reply) -> Option<ConflictSnapshot> {
        match reply {
            Reply::Snapshot(snapshot) => Some(snapshot),
            _ => None,
        }
    }

    fn read<'a>(reply: &'a Reply) -> (r: Option<&'a ConflictSnapshot>) {
        match reply {
            Reply::Snapshot(snapshot) => Some(snapshot),
            _ => None,
        }
    }
}

impl Answer for Vec<ConflictFileContent> {
    open spec fn in_reply(reply: Reply) -> Option<Vec<ConflictFileContent>> {
        match reply {
            Reply::Files(files) => Some(files),
            _ => None,
        }
    }

    fn read<'a>(reply: &'a Reply) -> (r: Option<&'a Vec<ConflictFileContent>>) {
        match reply {
            Reply::Files(files) => Some(files),
            _ => None,
        }
    }
}

impl Answer for ConflictBlocks {
    open spec fn in_reply(reply: Reply) -> Option<ConflictBlocks> {
        match reply {
            Reply::Blocks(blocks) => Some(blocks),
            _ => None,
        }
    }

    fn read<'a>(reply: &'a Reply) -> (r: Option<&'a ConflictBlocks>) {
        match reply {
            Reply::Blocks(blocks) => Some(blocks),
            _ => None,
        }
    }
}

impl Answer for SyncPatchContext {
    open spec fn in_reply(reply: Reply) -> Option<SyncPatchContext> {
        match reply {
            Reply::Patch(patch) => Some(patch),
            _ => None,
        }
    }

    fn read<'a>(reply: &'a Reply) -> (r: Option<&'a SyncPatchContext>) {
        match reply {
            Reply::Patch(patch) => Some(patch),
            _ => None,
        }
    }
}

impl Answer for Vec<ResolvedFile> {
    open spec fn in_reply(reply: Reply) -> Option<Vec<ResolvedFile>> {
        match reply {
            Reply::Resolved(files) => Some(files),
            _ => None,
        }
    }

    fn read<'a>(reply: &'a Reply) -> (r: Option<&'a Vec<ResolvedFile>>) {
        match reply {
            Reply::Resolved(files) => Some(files),
            _ => None,
        }
    }
}

impl Answer for CapturedConflict {
    open spec fn in_reply(reply: Reply) -> Option<CapturedConflict> {
        match reply {
            Reply::Captured(captured) => Some(captured),
            _ => None,
        }
    }

    fn read<'a>(reply: &'a Reply) -> (r: Option<&'a CapturedConflict>) {
        match reply {
            Reply::Captured(captured) => Some(captured),
            _ => None,
        }
    }
}

impl Answer for AutoResolvedSync {
    open spec fn in_reply(reply: Reply) -> Option<AutoResolvedSync> {
        match reply {
            Reply::Continued(continued) => Some(continued),
            _ => None,
        }
    }

    fn read<'a>(reply: &'a Reply) -> (r: Option<&'a AutoResolvedSync>) {
        match reply {
            Reply::Continued(continued) => Some(continued),
            _ => None,
        }
    }
}

impl Answer for FileFacts {
    open spec fn in_reply(reply: Reply) -> Option<FileFacts> {
        match reply {
            Reply::Facts(facts) => Some(facts),
            _ => None,
        }
    }

    fn read<'a>(reply: &'a Reply) -> (r: Option<&'a FileFacts>) {
        match reply {
            Reply::Facts(facts) => Some(facts),
            _ => None,
        }
    }
}

impl Answer for ResponseFacts {
    open spec fn in_reply(reply: Reply) -> Option<ResponseFacts> {
        match reply {
            Reply::Response(facts) => Some(facts),
            _ => None,
        }
    }

    fn read<'a>(reply: &'a Reply) -> (r: Option<&'a ResponseFacts>) {
        match reply {
            Reply::Response(facts) => Some(facts),
            _ => None,
        }
    }
}

impl Answer for Option<CommitSecurityReviewBatch> {
    open spec fn in_reply(reply: Reply) -> Option<Option<CommitSecurityReviewBatch>> {
        match reply {
            Reply::Reviews(batch) => Some(batch),
            _ => None,
        }
    }

    fn read<'a>(reply: &'a Reply) -> (r: Option<&'a Option<CommitSecurityReviewBatch>>) {
        match reply {
            Reply::Reviews(batch) => Some(batch),
            _ => None,
        }
    }
}

impl Answer for Vec<SecurityContractVerificationDecision> {
    open spec fn in_reply(reply: Reply) -> Option<Vec<SecurityContractVerificationDecision>> {
        match reply {
            Reply::Contracts(results) => Some(results),
            _ => None,
        }
    }

    fn read<'a>(reply: &'a Reply) -> (r: Option<&'a Vec<SecurityContractVerificationDecision>>) {
        match reply {
            Reply::Contracts(results) => Some(results),
            _ => None,
        }
    }
}

impl Answer for AutoResolveDecision {
    open spec fn in_reply(reply: Reply) -> Option<AutoResolveDecision> {
        match reply {
            Reply::AutoResolve(decision) => Some(decision),
            _ => None,
        }
    }

    fn read<'a>(reply: &'a Reply) -> (r: Option<&'a AutoResolveDecision>) {
        match reply {
            Reply::AutoResolve(decision) => Some(decision),
            _ => None,
        }
    }
}

impl Answer for ConflictOptionsDecision {
    open spec fn in_reply(reply: Reply) -> Option<ConflictOptionsDecision> {
        match reply {
            Reply::Options(decision) => Some(decision),
            _ => None,
        }
    }

    fn read<'a>(reply: &'a Reply) -> (r: Option<&'a ConflictOptionsDecision>) {
        match reply {
            Reply::Options(decision) => Some(decision),
            _ => None,
        }
    }
}

impl Answer for ConflictResolutionProposal {
    open spec fn in_reply(reply: Reply) -> Option<ConflictResolutionProposal> {
        match reply {
            Reply::Proposal(decision) => Some(decision),
            _ => None,
        }
    }

    fn read<'a>(reply: &'a Reply) -> (r: Option<&'a ConflictResolutionProposal>) {
        match reply {
            Reply::Proposal(decision) => Some(decision),
            _ => None,
        }
    }
}

impl Answer for SecurityReviewDecision {
    open spec fn in_reply(reply: Reply) -> Option<SecurityReviewDecision> {
        match reply {
            Reply::Review(decision) => Some(decision),
            _ => None,
        }
    }

    fn read<'a>(reply: &'a Reply) -> (r: Option<&'a SecurityReviewDecision>) {
        match reply {
            Reply::Review(decision) => Some(decision),
            _ => None,
        }
    }
}

impl Answer for SecurityContractVerificationDecision {
    open spec fn in_reply(reply: Reply) -> Option<SecurityContractVerificationDecision> {
        match reply {
            Reply::Verification(decision) => Some(decision),
            _ => None,
        }
    }

    fn read<'a>(reply: &'a Reply) -> (r: Option<&'a SecurityContractVerificationDecision>) {
        match reply {
            Reply::Verification(decision) => Some(decision),
            _ => None,
        }
    }
}

impl Answer for SignalFileSelection {
    open spec fn in_reply(reply: Reply) -> Option<SignalFileSelection> {
        match reply {
            Reply::Selection(selection) => Some(selection),
            _ => None,
        }
    }

    fn read<'a>(reply: &'a Reply) -> (r: Option<&'a SignalFileSelection>) {
        match reply {
            Reply::Selection(selection) => Some(selection),
            _ => None,
        }
    }
}

impl Answer for SignalInvestigationDecision {
    open spec fn in_reply(reply: Reply) -> Option<SignalInvestigationDecision> {
        match reply {
            Reply::Investigation(decision) => Some(decision),
            _ => None,
        }
    }

    fn read<'a>(reply: &'a Reply) -> (r: Option<&'a SignalInvestigationDecision>) {
        match reply {
            Reply::Investigation(decision) => Some(decision),
            _ => None,
        }
    }
}

impl Answer for Option<DeliveryDraft> {
    open spec fn in_reply(reply: Reply) -> Option<Option<DeliveryDraft>> {
        match reply {
            Reply::Draft(draft) => Some(draft),
            _ => None,
        }
    }

    fn read<'a>(reply: &'a Reply) -> (r: Option<&'a Option<DeliveryDraft>>) {
        match reply {
            Reply::Draft(draft) => Some(draft),
            _ => None,
        }
    }
}

impl Answer for Config {
    open spec fn in_reply(reply: Reply) -> Option<Config> {
        match reply {
            Reply::Settings(config) => Some(config),
            _ => None,
        }
    }

    fn read<'a>(reply: &'a Reply) -> (r: Option<&'a Config>) {
        match reply {
            Reply::Settings(config) => Some(config),
            _ => None,
        }
    }
}

impl Answer for BranchConfig {
    open spec fn in_reply(reply: Reply) -> Option<BranchConfig> {
        match reply {
            Reply::Branch(branch) => Some(branch),
            _ => None,
        }
    }

    fn read<'a>(reply: &'a Reply) -> (r: Option<&'a BranchConfig>) {
        match reply {
            Reply::Branch(branch) => Some(branch),
            _ => None,
        }
    }
}

impl Answer for JobView {
    open spec fn in_reply(reply: Reply) -> Option<JobView> {
        match reply {
            Reply::Job(job) => Some(job),
            _ => None,
        }
    }

    fn read<'a>(reply: &'a Reply) -> (r: Option<&'a JobView>) {
        match reply {
            Reply::Job(job) => Some(job),
            _ => None,
        }
    }
}

/// Why a run halts: it has a request, or it failed.
pub enum Halt<'a> {
    Ask(Request<'a>),
    Fail(Fault),
}

impl<'a> Halt<'a> {
    /// The same halt; a failure becomes the cause of another.
    pub fn context(self, message: String) -> (r: Halt<'a>)
        ensures
            match self {
                Halt::Ask(request) => r == Halt::Ask(request),
                Halt::Fail(fault) => r matches Halt::Fail(found) && found@ == seq![message@]
                    + fault@,
            },
    {
        match self {
            Halt::Ask(request) => Halt::Ask(request),
            Halt::Fail(fault) => Halt::Fail(fault.context(message)),
        }
    }
}

/// How far a run gets: it halts with a request, or it fails or has a result, with some replies read.
pub enum Run<T> {
    Ask(RequestView),
    Fail(Seq<Seq<char>>, nat),
    On(T, nat),
}

/// The run of a request whose reply comes next.
pub open spec fn asked<T: Answer>(replies: Seq<Reply>, at: nat, request: RequestView) -> Run<T> {
    if at >= replies.len() {
        Run::Ask(request)
    } else {
        match replies[at as int] {
            Reply::Failed(fault) => Run::Fail(fault@, at + 1),
            reply => match T::in_reply(reply) {
                Some(answer) => Run::On(answer, at + 1),
                None => Run::Fail(seq!["unexpected reply"@], at + 1),
            },
        }
    }
}

/// A run whose failure is a result.
pub open spec fn caught<T>(run: Run<T>) -> Run<Result<T, Seq<Seq<char>>>> {
    match run {
        Run::Ask(request) => Run::Ask(request),
        Run::Fail(chain, at) => Run::On(Err(chain), at),
        Run::On(value, at) => Run::On(Ok(value), at),
    }
}

/// A run whose failure is the cause of another.
pub open spec fn in_context<T>(run: Run<T>, message: Seq<char>) -> Run<T> {
    match run {
        Run::Fail(chain, at) => Run::Fail(seq![message] + chain, at),
        other => other,
    }
}

/// A run whose result is there.
pub open spec fn some_of<T>(run: Run<T>) -> Run<Option<T>> {
    match run {
        Run::Ask(request) => Run::Ask(request),
        Run::Fail(chain, at) => Run::Fail(chain, at),
        Run::On(value, at) => Run::On(Some(value), at),
    }
}

/// A run whose result is not used.
pub open spec fn passed<T>(run: Run<T>) -> Run<()> {
    match run {
        Run::Ask(request) => Run::Ask(request),
        Run::Fail(chain, at) => Run::Fail(chain, at),
        Run::On(_, at) => Run::On((), at),
    }
}

/// The replies of a run, and how many of them were read.
pub struct Journal<'a> {
    replies: &'a Vec<Reply>,
    next: usize,
}

impl<'a> Journal<'a> {
    #[verifier::type_invariant]
    spec fn in_range(&self) -> bool {
        self.next <= self.replies@.len()
    }

    /// All replies.
    pub closed spec fn all(&self) -> Seq<Reply> {
        self.replies@
    }

    /// How many replies were read.
    pub closed spec fn at(&self) -> nat {
        self.next as nat
    }

    /// Opens a journal at its start.
    pub fn new(replies: &'a Vec<Reply>) -> (r: Journal<'a>)
        ensures
            r.all() == replies@,
            r.at() == 0,
    {
        Journal { replies, next: 0 }
    }

    /// Reads the reply to a request, or halts with the request.
    pub fn ask<T: Answer>(&mut self, request: Request<'a>) -> (r: Result<&'a T, Halt<'a>>)
        ensures
            took(*old(self), *final(self), r, asked::<T>(old(self).all(), old(self).at(), request@)),
    {
        proof {
            use_type_invariant(&*self);
        }
        if self.next >= self.replies.len() {
            return Err(Halt::Ask(request));
        }
        let at: usize = self.next;
        self.next = at + 1;
        let replies: &'a Vec<Reply> = self.replies;
        let reply: &'a Reply = &replies[at];
        match reply {
            Reply::Failed(fault) => Err(Halt::Fail(fault.copy())),
            _ => match T::read(reply) {
                Some(answer) => Ok(answer),
                None => Err(Halt::Fail(Fault::of("unexpected reply"))),
            },
        }
    }
}

/// Whether a result that stands in the journal is that of a run.
pub open spec fn took<'a, T>(
    before: Journal<'a>,
    after: Journal<'a>,
    r: Result<&'a T, Halt<'a>>,
    run: Run<T>,
) -> bool {
    &&& after.all() == before.all()
    &&& match run {
        Run::Ask(request) => r matches Err(Halt::Ask(found)) && found@ == request,
        Run::Fail(chain, at) => r matches Err(Halt::Fail(fault)) && fault@ == chain && after.at()
            == at,
        Run::On(value, at) => r matches Ok(found) && *found == value && after.at() == at,
    }
}

/// Whether a result is that of a run, by its model.
pub open spec fn follows<'a, T: View>(
    before: Journal<'a>,
    after: Journal<'a>,
    r: Result<T, Halt<'a>>,
    run: Run<T::V>,
) -> bool {
    &&& after.all() == before.all()
    &&& match run {
        Run::Ask(request) => r matches Err(Halt::Ask(found)) && found@ == request,
        Run::Fail(chain, at) => r matches Err(Halt::Fail(fault)) && fault@ == chain && after.at()
            == at,
        Run::On(value, at) => r matches Ok(found) && found@ == value && after.at() == at,
    }
}

/// Whether a result that may stand in the journal is that of a run.
pub open spec fn took_option<'a, T>(
    before: Journal<'a>,
    after: Journal<'a>,
    r: Result<Option<&'a T>, Halt<'a>>,
    run: Run<Option<T>>,
) -> bool {
    &&& after.all() == before.all()
    &&& match run {
        Run::Ask(request) => r matches Err(Halt::Ask(found)) && found@ == request,
        Run::Fail(chain, at) => r matches Err(Halt::Fail(fault)) && fault@ == chain && after.at()
            == at,
        Run::On(None, at) => r matches Ok(found) && found is None && after.at() == at,
        Run::On(Some(value), at) => r matches Ok(Some(found)) && *found == value && after.at()
            == at,
    }
}

/// Whether a result that may be there is that of a run, by its model.
pub open spec fn follows_option<'a, T: View>(
    before: Journal<'a>,
    after: Journal<'a>,
    r: Result<Option<T>, Halt<'a>>,
    run: Run<Option<T::V>>,
) -> bool {
    &&& after.all() == before.all()
    &&& match run {
        Run::Ask(request) => r matches Err(Halt::Ask(found)) && found@ == request,
        Run::Fail(chain, at) => r matches Err(Halt::Fail(fault)) && fault@ == chain && after.at()
            == at,
        Run::On(None, at) => r matches Ok(found) && found is None && after.at() == at,
        Run::On(Some(value), at) => r matches Ok(Some(found)) && found@ == value && after.at()
            == at,
    }
}

} // verus!
