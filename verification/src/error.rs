//! Failure reports and the decorator that labels them.
//!
//! A failure is a `rootcause` report: a context text and the reports that
//! caused it. The library only ever adds to a report, and it builds each one
//! without running the creation hooks of the process, so that what a report
//! holds is what the library put into it. What it promises is stated over [`report_chain`], the texts
//! of a report and of all the reports below it, and over [`report_causes`],
//! the same for each of its children.
use vstd::prelude::*;

use crate::{infallible, Service};

verus! {

/// `rootcause::markers::Dynamic`: marks a report whose context may be of any
/// type. Nothing is claimed of it.
#[verifier::external_type_specification]
#[verifier::external_body]
pub struct ExDynamic(rootcause::markers::Dynamic);

/// `rootcause::markers::Cloneable`: marks a report that is shared and can be
/// cloned. Nothing is claimed of it.
#[verifier::external_type_specification]
#[verifier::external_body]
pub struct ExCloneable(rootcause::markers::Cloneable);

/// `rootcause::markers::SendSync`: marks a report that may cross threads.
/// Nothing is claimed of it.
#[verifier::external_type_specification]
#[verifier::external_body]
pub struct ExSendSync(rootcause::markers::SendSync);

/// `rootcause::Report`, carried through as it is. What a report holds is
/// spoken of through [`report_chain`] and [`report_causes`] only.
#[verifier::external_type_specification]
#[verifier::external_body]
#[verifier::reject_recursive_types(C)]
#[verifier::reject_recursive_types(O)]
#[verifier::reject_recursive_types(T)]
pub struct ExReport<C: ?Sized + 'static, O: 'static, T: 'static>(rootcause::Report<C, O, T>);

/// `rootcause::report_collection::ReportCollection`, carried through as it
/// is. What a collection holds is spoken of through [`collected_chains`]
/// only.
#[verifier::external_type_specification]
#[verifier::external_body]
#[verifier::reject_recursive_types(C)]
#[verifier::reject_recursive_types(T)]
pub struct ExReportCollection<C: ?Sized + 'static, T: 'static>(
    rootcause::report_collection::ReportCollection<C, T>,
);

/// The failure every service returns: a report that can be cloned and sent
/// across threads, whatever the type of its context.
pub type ServiceError = rootcause::Report<
    rootcause::markers::Dynamic,
    rootcause::markers::Cloneable,
    rootcause::markers::SendSync,
>;

/// Failures gathered before a common context is put above them.
pub type Causes = rootcause::report_collection::ReportCollection<
    rootcause::markers::Dynamic,
    rootcause::markers::SendSync,
>;

/// The context texts of `report` and of every report below it: its own text
/// first, then the chain of each child in turn, in the order in which
/// `Report::iter_reports` visits them. A text is what the context's handler
/// writes for `Display`.
pub uninterp spec fn report_chain(report: ServiceError) -> Seq<Seq<char>>;

/// The chain of each child of `report`, in the order of `Report::children`.
pub uninterp spec fn report_causes(report: ServiceError) -> Seq<Seq<Seq<char>>>;

/// The chain of each report in `causes`, in the order in which they were
/// pushed.
pub uninterp spec fn collected_chains(causes: Causes) -> Seq<Seq<Seq<char>>>;

/// The chain of each of `reports`.
pub open spec fn chains_of(reports: Seq<ServiceError>) -> Seq<Seq<Seq<char>>> {
    reports.map_values(|report: ServiceError| report_chain(report))
}

/// Whether `texts` spell out `chain`, text for text.
pub open spec fn spells(texts: Seq<String>, chain: Seq<Seq<char>>) -> bool {
    texts.len() == chain.len() && forall|i: int|
        0 <= i < texts.len() ==> (#[trigger] texts[i])@ == chain[i]
}

/// Whether `outer` is `cause` with the one context `label` put above it:
/// `cause` is its only child, and its chain is the label and then the whole
/// chain of `cause`.
pub open spec fn wraps(outer: ServiceError, label: Seq<char>, cause: ServiceError) -> bool {
    report_chain(outer) == seq![label] + report_chain(cause) && report_causes(outer) == seq![
        report_chain(cause),
    ]
}

/// Whether `res` is `inner` with `label` put above its failure, if it has
/// one: a success passes unchanged, a failure stays a failure and keeps its
/// whole chain below the label.
pub open spec fn annotates<T>(
    res: Result<T, ServiceError>,
    label: Seq<char>,
    inner: Result<T, ServiceError>,
) -> bool {
    match inner {
        Ok(value) => res == Ok::<T, ServiceError>(value),
        Err(cause) => res is Err && wraps(res->Err_0, label, cause),
    }
}

/// Calls `ReportCollection::new_sendsync`. Claims that the collection is
/// empty.
#[verifier::external_body]
fn new_causes() -> (causes: Causes)
    ensures
        collected_chains(causes) == Seq::<Seq<Seq<char>>>::empty(),
{
    rootcause::report_collection::ReportCollection::new_sendsync()
}

/// Calls `ReportCollection::push`. Claims that the report is appended and
/// the reports before it stay as they were.
#[verifier::external_body]
fn push_cause(causes: &mut Causes, cause: ServiceError)
    ensures
        collected_chains(*final(causes)) == collected_chains(*old(causes)).push(
            report_chain(cause),
        ),
{
    causes.push(cause.into_cloneable())
}

/// Calls `Report::from_parts_unhooked` with the `Display` handler, the
/// collection as children and no attachments. Claims that the new report
/// has the label as its text and the collected reports, in their order, as
/// its children. The call runs no creation hook, so nothing that a process
/// installs can alter the report.
#[verifier::external_body]
fn causes_context(causes: Causes, label: &'static str) -> (report: ServiceError)
    ensures
        report_chain(report) == seq![label@] + collected_chains(causes).flatten(),
        report_causes(report) == collected_chains(causes),
{
    rootcause::Report::<&'static str, rootcause::markers::Mutable, rootcause::markers::SendSync>
        ::from_parts_unhooked::<rootcause::handlers::Display>(
        label,
        causes,
        rootcause::report_attachments::ReportAttachments::new(),
    ).into_dynamic().into_cloneable()
}

/// Calls `Report::iter_reports` and `format_current_context_unhooked` on
/// each report it yields. Claims nothing beyond naming what comes out: the
/// texts are the chain.
#[verifier::external_body]
fn chain_texts(report: &ServiceError) -> (texts: Vec<String>)
    ensures
        spells(texts@, report_chain(*report)),
{
    report.iter_reports().map(|r| r.format_current_context_unhooked().to_string()).collect()
}

/// Calls `Report::children` and, on each child, `ReportRef::iter_reports`
/// with `format_current_context_unhooked`. Claims nothing beyond naming
/// what comes out: the texts of each child are that child's chain.
#[verifier::external_body]
fn cause_texts(report: &ServiceError) -> (texts: Vec<Vec<String>>)
    ensures
        texts@.len() == report_causes(*report).len(),
        forall|i: int|
            0 <= i < texts@.len() ==> spells((#[trigger] texts@[i])@, report_causes(*report)[i]),
{
    report.children().iter().map(
        |c| c.iter_reports().map(|r| r.format_current_context_unhooked().to_string()).collect(),
    ).collect()
}

/// A new failure with `message` as its only text.
pub fn failure(message: &'static str) -> (report: ServiceError)
    ensures
        report_chain(report) == seq![message@],
        report_causes(report) == Seq::<Seq<Seq<char>>>::empty(),
{
    let causes = new_causes();
    let report = causes_context(causes, message);
    assert(collected_chains(causes).flatten() =~= Seq::<Seq<char>>::empty());
    assert(report_chain(report) =~= seq![message@]);
    report
}

/// Several failures under one label: each becomes a child of the new report,
/// in the order given, and none of their texts is lost.
pub fn merge(failures: Vec<ServiceError>, label: &'static str) -> (report: ServiceError)
    ensures
        report_chain(report) == seq![label@] + chains_of(failures@).flatten(),
        report_causes(report) == chains_of(failures@),
{
    let mut causes = new_causes();
    assert(chains_of(failures@.take(0)) =~= collected_chains(causes));
    for failure in it: failures
        invariant
            it.seq() == failures@,
            collected_chains(causes) == chains_of(failures@.take(it.index() as int)),
    {
        let ghost done = it.index() as int;
        push_cause(&mut causes, failure);
        assert(chains_of(failures@.take(done + 1)) =~= chains_of(failures@.take(done)).push(
            report_chain(failure),
        ));
    }
    assert(failures@.take(failures@.len() as int) =~= failures@);
    causes_context(causes, label)
}

/// One failure under a label: the failure becomes the only child of the new
/// report, and its whole chain follows the label.
pub fn with_context(cause: ServiceError, label: &'static str) -> (report: ServiceError)
    ensures
        wraps(report, label@, cause),
{
    let mut causes = new_causes();
    push_cause(&mut causes, cause);
    let report = causes_context(causes, label);
    proof {
        let one = seq![report_chain(cause)];
        assert(collected_chains(causes) =~= one);
        assert(one.flatten() =~= report_chain(cause)) by {
            assert(one.drop_first() =~= Seq::<Seq<Seq<char>>>::empty());
            reveal_with_fuel(Seq::flatten, 3);
        }
    }
    report
}

/// An answer with `label` put above its failure, if it has one.
pub fn annotate<T>(answer: Result<T, ServiceError>, label: &'static str) -> (res: Result<
    T,
    ServiceError,
>)
    ensures
        annotates(res, label@, answer),
{
    match answer {
        Ok(value) => Ok(value),
        Err(cause) => Err(with_context(cause, label)),
    }
}

/// The texts of a failure, outermost first.
pub fn cause_chain(report: &ServiceError) -> (texts: Vec<String>)
    ensures
        spells(texts@, report_chain(*report)),
{
    chain_texts(report)
}

/// The texts of each failure that `report` was made of, in their order: one
/// list for each of its children.
pub fn cause_chains(report: &ServiceError) -> (texts: Vec<Vec<String>>)
    ensures
        texts@.len() == report_causes(*report).len(),
        forall|i: int|
            0 <= i < texts@.len() ==> spells((#[trigger] texts@[i])@, report_causes(*report)[i]),
{
    cause_texts(report)
}

/// Whether `label` is among the texts of `report`.
pub fn mentions(report: &ServiceError, label: &str) -> (found: bool)
    ensures
        found == report_chain(*report).contains(label@),
{
    let texts = chain_texts(report);
    let wanted = label.to_owned();
    let mut i: usize = 0;
    while i < texts.len()
        invariant
            i <= texts@.len(),
            wanted@ == label@,
            spells(texts@, report_chain(*report)),
            forall|k: int| 0 <= k < i ==> report_chain(*report)[k] != label@,
        decreases texts@.len() - i,
    {
        if texts[i] == wanted {
            assert(report_chain(*report)[i as int] == label@);
            return true;
        }
        i = i + 1;
    }
    false
}

/// A service whose failures carry one more context.
#[derive(Clone, Debug)]
pub struct ErrorContextService<S> {
    pub inner: S,
    pub context: &'static str,
}

/// What a service may answer when `label` is put above the failures of
/// `inner`: what `inner` may answer, a success as it is and a failure under
/// the label.
pub open spec fn labelled<Req, S: Service<Req>>(
    inner: S,
    label: Seq<char>,
    msg: Req,
    res: Result<S::Resp, ServiceError>,
    inner_next: S,
) -> bool {
    exists|answer: Result<S::Resp, ServiceError>|
        #[trigger] inner.responds(msg, answer, &inner_next) && annotates(res, label, answer)
}

impl<Req, S: Service<Req>> Service<Req> for ErrorContextService<S> {
    type Resp = S::Resp;

    open spec fn responds(
        &self,
        msg: Req,
        res: Result<Self::Resp, ServiceError>,
        next: &Self,
    ) -> bool {
        next.context == self.context && labelled(self.inner, self.context@, msg, res, next.inner)
    }

    fn request(&mut self, msg: Req) -> (res: Result<Self::Resp, ServiceError>) {
        let answer = self.inner.request(msg);
        assert(old(self).inner.responds(msg, answer, &self.inner));
        annotate(answer, self.context)
    }
}

/// Labelling, offered on every service.
pub trait ErrorContext<Req>: Service<Req> {
    /// This service with `context` put above each of its failures.
    fn with_error_context(self, context: &'static str) -> (service: ErrorContextService<Self>)
        ensures
            service.inner == self,
            service.context == context,
    {
        ErrorContextService { inner: self, context }
    }
}

impl<Req, T: Service<Req>> ErrorContext<Req> for T {

}

/// A label marks the failures of the stage it was put on, and those only.
///
/// Where `res` is what a labelled stage returns for the answer `inner` of the
/// service below it: the stage fails exactly when the service fails, its
/// failure then has the label in its chain, heading it, and the chain of the
/// service's own failure follows whole.
pub proof fn lemma_label_marks_failure<T>(
    res: Result<T, ServiceError>,
    label: Seq<char>,
    inner: Result<T, ServiceError>,
)
    requires
        annotates(res, label, inner),
    ensures
        (res is Err && report_chain(res->Err_0).contains(label)) <==> inner is Err,
        res is Err <==> inner is Err,
        inner is Ok ==> res == inner,
        inner is Err ==> report_chain(res->Err_0).first() == label && report_chain(
            res->Err_0,
        ).drop_first() == report_chain(inner->Err_0),
{
    if inner is Err {
        let chain = report_chain(res->Err_0);
        assert(chain == seq![label] + report_chain(inner->Err_0));
        assert(chain[0] == label);
        assert(chain.drop_first() =~= report_chain(inner->Err_0));
    }
}

/// A label shows in a failure exactly when the stage it was put on failed.
///
/// Of a labelled service that answers `msg` with `res`: the service below
/// the label has answered `msg` too, and the two agree on whether the
/// request failed. Where it succeeded, `res` is its answer. Where it failed,
/// `res` is its failure with the label above: the label heads the chain and
/// the chain of the failure follows whole.
pub proof fn lemma_context_presence<Req, S: Service<Req>>(
    service: ErrorContextService<S>,
    msg: Req,
    res: Result<S::Resp, ServiceError>,
    next: ErrorContextService<S>,
) -> (answer: Result<S::Resp, ServiceError>)
    requires
        service.responds(msg, res, &next),
    ensures
        service.inner.responds(msg, answer, &next.inner),
        answer is Err <==> res is Err,
        answer is Err <==> res is Err && report_chain(res->Err_0).contains(service.context@),
        answer is Ok ==> res == answer,
        answer is Err ==> wraps(res->Err_0, service.context@, answer->Err_0),
{
    let answer = choose|answer: Result<S::Resp, ServiceError>|
        #[trigger] service.inner.responds(msg, answer, &next.inner) && annotates(
            res,
            service.context@,
            answer,
        );
    lemma_label_marks_failure(res, service.context@, answer);
    answer
}

/// A label changes nothing about whether a service can fail.
pub proof fn lemma_labelled_infallible<Req, S: Service<Req>>()
    requires
        infallible::<Req, S>(),
    ensures
        infallible::<Req, ErrorContextService<S>>(),
{
    assert forall|
        state: ErrorContextService<S>,
        msg: Req,
        res: Result<S::Resp, ServiceError>,
        next: ErrorContextService<S>,
    | #[trigger] state.responds(msg, res, &next) implies res is Ok by {
        let answer = choose|answer: Result<S::Resp, ServiceError>|
            #[trigger] state.inner.responds(msg, answer, &next.inner) && annotates(
                res,
                state.context@,
                answer,
            );
        assert(answer is Ok);
    }
}

} // verus!
