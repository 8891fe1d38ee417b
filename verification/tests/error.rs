use service_stack::error::{
    annotate, cause_chain, cause_chains, failure, mentions, merge, with_context, ErrorContext,
    ServiceError,
};
use service_stack::stack::StackService;
use service_stack::Service;

#[derive(Debug, Clone, Copy)]
pub struct AddOneService;

impl Service<u64> for AddOneService {
    type Resp = u64;

    fn request(&mut self, msg: u64) -> Result<Self::Resp, ServiceError> {
        if msg > 2 {
            Err(failure("Err can't add msg > 2"))
        } else {
            Ok(msg + 1)
        }
    }
}

#[test]
fn error() {
    let add_one_service = AddOneService;

    add_one_service
        .with_error_context("Adding one 1")
        .then_after(add_one_service)
        .with_error_context("Adding one 2")
        .then_after(add_one_service)
        .with_error_context("Adding one 3")
        .then_after(add_one_service)
        .with_error_context("Adding one 4")
        .then_after(add_one_service)
        .with_error_context("Adding one 5")
        .request(1)
        .unwrap_err();
}

#[test]
fn error_names_the_stages_that_failed() {
    let add_one_service = AddOneService;

    let err = add_one_service
        .with_error_context("Adding one 1")
        .then_after(add_one_service)
        .with_error_context("Adding one 2")
        .then_after(add_one_service)
        .with_error_context("Adding one 3")
        .then_after(add_one_service)
        .with_error_context("Adding one 4")
        .then_after(add_one_service)
        .with_error_context("Adding one 5")
        .request(1)
        .unwrap_err();

    // 1 -> 2 -> 3, and the third service refuses 3: the first two stages
    // succeeded, the three around them failed.
    assert!(!mentions(&err, "Adding one 1"));
    assert!(!mentions(&err, "Adding one 2"));
    assert!(mentions(&err, "Adding one 3"));
    assert!(mentions(&err, "Adding one 4"));
    assert!(mentions(&err, "Adding one 5"));
    assert_eq!(
        cause_chain(&err),
        vec![
            "Adding one 5".to_string(),
            "Inner stack service failed".to_string(),
            "Adding one 4".to_string(),
            "Inner stack service failed".to_string(),
            "Adding one 3".to_string(),
            "Inner stack service failed".to_string(),
            "Err can't add msg > 2".to_string(),
        ]
    );
}

#[test]
fn error_chain_succeeds_from_zero_with_two_stages() {
    let add_one_service = AddOneService;
    let out = add_one_service
        .with_error_context("Adding one 1")
        .then_after(add_one_service)
        .with_error_context("Adding one 2")
        .request(0)
        .unwrap();
    assert_eq!(out, 2);
}

#[test]
fn context_passes_a_success_unchanged() {
    let mut service = AddOneService.with_error_context("adding");
    assert_eq!(service.request(0).unwrap(), 1);
    assert_eq!(service.request(2).unwrap(), 3);
    assert_eq!(service.context, "adding");
}

#[test]
fn context_heads_the_chain_of_a_failure() {
    let mut service = AddOneService.with_error_context("adding");
    let err = service.request(3).unwrap_err();
    assert_eq!(
        cause_chain(&err),
        vec!["adding".to_string(), "Err can't add msg > 2".to_string()]
    );
    assert!(mentions(&err, "adding"));
    assert!(mentions(&err, "Err can't add msg > 2"));
    assert!(!mentions(&err, "addin"));
    assert!(!mentions(&err, ""));
}

#[test]
fn failure_has_its_message_as_only_text() {
    let err = failure("nothing works");
    assert_eq!(cause_chain(&err), vec!["nothing works".to_string()]);
    assert!(mentions(&err, "nothing works"));
    assert!(!mentions(&err, "something works"));
}

#[test]
fn failure_has_no_causes() {
    assert_eq!(cause_chains(&failure("nothing works")), Vec::<Vec<String>>::new());
}

#[test]
fn with_context_puts_the_label_above_the_whole_chain() {
    let inner = with_context(failure("disk full"), "writing the file");
    assert_eq!(
        cause_chain(&inner),
        vec!["writing the file".to_string(), "disk full".to_string()]
    );
    assert_eq!(cause_chains(&inner), vec![vec!["disk full".to_string()]]);
    let outer = with_context(inner, "saving the document");
    assert_eq!(
        cause_chain(&outer),
        vec![
            "saving the document".to_string(),
            "writing the file".to_string(),
            "disk full".to_string(),
        ]
    );
    // One cause, with its own cause below it.
    assert_eq!(
        cause_chains(&outer),
        vec![vec!["writing the file".to_string(), "disk full".to_string()]]
    );
}

#[test]
fn merge_keeps_every_failure_in_its_place() {
    let report = merge(
        vec![
            failure("first replica timed out"),
            with_context(failure("connection refused"), "second replica unreachable"),
            failure("third replica timed out"),
        ],
        "no replica answered",
    );
    assert_eq!(
        cause_chain(&report),
        vec![
            "no replica answered".to_string(),
            "first replica timed out".to_string(),
            "second replica unreachable".to_string(),
            "connection refused".to_string(),
            "third replica timed out".to_string(),
        ]
    );
    assert_eq!(
        cause_chains(&report),
        vec![
            vec!["first replica timed out".to_string()],
            vec![
                "second replica unreachable".to_string(),
                "connection refused".to_string()
            ],
            vec!["third replica timed out".to_string()],
        ]
    );
}

#[test]
fn merge_of_nothing_is_the_label_alone() {
    let report = merge(Vec::new(), "nothing went wrong");
    assert_eq!(cause_chain(&report), vec!["nothing went wrong".to_string()]);
    assert_eq!(cause_chains(&report), Vec::<Vec<String>>::new());
}

#[test]
fn annotate_passes_a_success_and_labels_a_failure() {
    assert_eq!(annotate(Ok(7u64), "counting").unwrap(), 7);
    let err = annotate::<u64>(Err(failure("lost count")), "counting").unwrap_err();
    assert_eq!(
        cause_chain(&err),
        vec!["counting".to_string(), "lost count".to_string()]
    );
    assert_eq!(cause_chains(&err), vec![vec!["lost count".to_string()]]);
}

fn takes_what_crosses_threads<T: Send + Sync + Clone + 'static>(value: T) -> T {
    value
}

#[test]
fn a_failure_can_be_cloned_and_shared() {
    let err = with_context(failure("disk full"), "writing the file");
    let copy = takes_what_crosses_threads(err.clone());
    drop(err);
    assert_eq!(
        cause_chain(&copy),
        vec!["writing the file".to_string(), "disk full".to_string()]
    );
}
