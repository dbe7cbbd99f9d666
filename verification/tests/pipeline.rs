use session_auth::exchange::{Exchange, Mark, Reply};
use session_auth::hoops::{
    serve, Hoop, OnionModel, PostProcessing, PreProcessing, Respond, SkipHandler,
};
use session_auth::pipeline::{advance, run, FlowCtrl};

fn onion(label: &str) -> Hoop {
    Hoop::OnionModel(OnionModel { label: label.to_string() })
}

fn pre(label: &str) -> Mark {
    Mark::Pre(label.to_string())
}

fn post(label: &str) -> Mark {
    Mark::Post(label.to_string())
}

fn handler(body: &str) -> Hoop {
    Hoop::Respond(Respond { status: 200, body: body.to_string() })
}

#[test]
fn onion_stages_run_in_and_out_in_order() {
    let stages = vec![onion("A"), onion("B"), onion("C"), handler("done")];
    let mut exchange = Exchange::new(0, vec![]);
    let ceased = run(&stages, &mut exchange);
    assert!(!ceased);
    assert_eq!(
        exchange.trail,
        vec![pre("A"), pre("B"), pre("C"), post("C"), post("B"), post("A")]
    );
    assert_eq!(exchange.reply, Reply::Content { status: 200, body: "done".to_string() });
}

#[test]
fn skip_rest_stops_the_way_in_and_unwinds() {
    let stages = vec![
        onion("A"),
        Hoop::SkipHandler(SkipHandler { label: "B".to_string() }),
        onion("C"),
        handler("done"),
    ];
    let mut exchange = Exchange::new(0, vec![]);
    let ceased = run(&stages, &mut exchange);
    assert!(ceased);
    assert_eq!(exchange.trail, vec![pre("A"), pre("B"), post("B"), post("A")]);
    assert_eq!(exchange.reply, Reply::Empty);
    assert!(exchange.reply.is_empty());
}

#[test]
fn pre_and_post_stages_mark_one_side_only() {
    let stages = vec![
        Hoop::PreProcessing(PreProcessing { label: "A".to_string() }),
        Hoop::PostProcessing(PostProcessing { label: "B".to_string() }),
        onion("C"),
    ];
    let mut exchange = Exchange::new(0, vec![]);
    let ceased = run(&stages, &mut exchange);
    assert!(!ceased);
    assert_eq!(exchange.trail, vec![pre("A"), pre("C"), post("C"), post("B")]);
}

#[test]
fn handler_that_returns_ends_the_chain() {
    let stages = vec![onion("A"), handler("first"), onion("C"), handler("second")];
    let mut exchange = Exchange::new(0, vec![]);
    let mut ctrl = FlowCtrl::new();
    advance(&stages, &mut ctrl, &mut exchange);
    assert_eq!(ctrl, FlowCtrl { cursor: 2, ceased: false });
    assert_eq!(exchange.trail, vec![pre("A"), post("A")]);
    assert_eq!(exchange.reply, Reply::Content { status: 200, body: "first".to_string() });
    // advancing again resumes behind the handler
    advance(&stages, &mut ctrl, &mut exchange);
    assert_eq!(ctrl, FlowCtrl { cursor: 4, ceased: false });
    assert_eq!(exchange.trail, vec![pre("A"), post("A"), pre("C"), post("C")]);
    assert_eq!(exchange.reply, Reply::Content { status: 200, body: "second".to_string() });
}

#[test]
fn advance_is_a_no_op_once_ceased_or_at_the_end() {
    let stages = vec![onion("A")];
    let mut exchange = Exchange::new(0, vec![]);
    let mut ctrl = FlowCtrl { cursor: 0, ceased: true };
    advance(&stages, &mut ctrl, &mut exchange);
    assert_eq!(ctrl, FlowCtrl { cursor: 0, ceased: true });
    assert!(exchange.trail.is_empty());
    let mut ctrl = FlowCtrl { cursor: 1, ceased: false };
    advance(&stages, &mut ctrl, &mut exchange);
    assert_eq!(ctrl, FlowCtrl { cursor: 1, ceased: false });
    assert!(exchange.trail.is_empty());
    let mut ctrl = FlowCtrl { cursor: 7, ceased: false };
    advance(&stages, &mut ctrl, &mut exchange);
    assert_eq!(ctrl, FlowCtrl { cursor: 7, ceased: false });
    assert!(exchange.trail.is_empty());
}

#[test]
fn empty_chain_leaves_the_exchange_alone() {
    let stages: Vec<Hoop> = vec![];
    let mut exchange = Exchange::new(5, vec![]);
    assert!(!run(&stages, &mut exchange));
    assert!(exchange.trail.is_empty());
    assert_eq!(exchange.reply, Reply::Empty);
    assert_eq!(exchange.now, 5);
}

#[test]
fn flow_ctrl_hands_out_stages_in_order() {
    let mut ctrl = FlowCtrl::new();
    assert_eq!(ctrl, FlowCtrl { cursor: 0, ceased: false });
    assert!(ctrl.has_next(2));
    assert_eq!(ctrl.next(2), Some(0));
    assert_eq!(ctrl.next(2), Some(1));
    assert!(!ctrl.has_next(2));
    assert_eq!(ctrl.next(2), None);
    assert_eq!(ctrl, FlowCtrl { cursor: 2, ceased: false });
    assert!(!ctrl.is_ceased());
}

#[test]
fn flow_ctrl_hands_out_nothing_after_skip_rest() {
    let mut ctrl = FlowCtrl::new();
    assert_eq!(ctrl.next(3), Some(0));
    ctrl.skip_rest();
    assert!(ctrl.is_ceased());
    assert!(!ctrl.has_next(3));
    assert_eq!(ctrl.next(3), None);
    assert_eq!(ctrl, FlowCtrl { cursor: 1, ceased: true });
}

#[test]
fn serve_fills_in_for_a_skip_that_wrote_nothing() {
    let stages = vec![
        onion("A"),
        Hoop::SkipHandler(SkipHandler { label: "B".to_string() }),
        handler("never"),
    ];
    let exchange = serve(&stages, 0, vec![]);
    assert_eq!(
        exchange.reply,
        Reply::Failure { status: 500, code: 500, msg: "Internal server error".to_string() }
    );
    assert_eq!(exchange.trail, vec![pre("A"), pre("B"), post("B"), post("A")]);
}

#[test]
fn serve_leaves_a_written_reply_alone() {
    let stages = vec![onion("A"), handler("done")];
    let exchange = serve(&stages, 7, vec![]);
    assert_eq!(exchange.now, 7);
    assert_eq!(exchange.reply, Reply::Content { status: 200, body: "done".to_string() });
    // a chain that ends without a skip may leave the reply empty
    let stages = vec![onion("A")];
    let exchange = serve(&stages, 7, vec![]);
    assert_eq!(exchange.reply, Reply::Empty);
}

#[test]
fn longer_onion_chains_nest_the_same_way() {
    let labels = ["a", "b", "c", "d", "e", "f", "g"];
    let stages: Vec<Hoop> = labels.iter().map(|l| onion(l)).collect();
    let mut exchange = Exchange::new(0, vec![]);
    assert!(!run(&stages, &mut exchange));
    let mut expected: Vec<Mark> = labels.iter().map(|l| pre(l)).collect();
    expected.extend(labels.iter().rev().map(|l| post(l)));
    assert_eq!(exchange.trail, expected);
}
