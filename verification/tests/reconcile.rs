use nimble_client::assent::{Assent, AssentCallback, UpdateState};
use nimble_client::rectify::{Rectify, RectifyCallback};
use nimble_client::seer::{DrainPolicy, Seer, SeerCallback};
use nimble_client::steps::{Deserialize, ParticipantSteps, Step};

use std::cell::RefCell;
use std::rc::Rc;

pub struct TestGame {
    pub position_x: i32,
}

pub enum TestGameStep {
    MoveLeft,
    MoveRight,
}

impl Deserialize for TestGameStep {
    fn deserialize(bytes: &[u8]) -> Self {
        match bytes[0] {
            0 => TestGameStep::MoveRight,
            _ => TestGameStep::MoveLeft,
        }
    }
}

impl AssentCallback<TestGameStep> for TestGame {
    fn on_pre_ticks(&mut self) {}

    fn on_tick(&mut self, steps: &ParticipantSteps<TestGameStep>) {
        for step in steps.steps.iter() {
            match step.step {
                Step::Custom(TestGameStep::MoveLeft) => self.position_x -= 1,
                Step::Custom(TestGameStep::MoveRight) => self.position_x += 1,
                Step::Forced => unreachable!(),
                Step::WaitingForReconnect => unreachable!(),
            }
        }
    }
}

impl SeerCallback<TestGameStep> for TestGame {
    fn on_copy_from_authoritative(&mut self) {}

    fn on_tick(&mut self, step: &ParticipantSteps<TestGameStep>) {
        let first = step.steps.first().unwrap();
        match &first.step {
            Step::Custom(game_step) => match game_step {
                TestGameStep::MoveLeft => {
                    self.position_x -= 1;
                }
                TestGameStep::MoveRight => {
                    self.position_x += 1;
                }
            },
            _ => {}
        }
    }

    fn on_post_ticks(&mut self) {}
}

pub struct TestCallback {
    pub copies: usize,
}

impl RectifyCallback for TestCallback {
    fn on_copy_from_authoritative(&mut self) {
        self.copies += 1;
    }
}

fn one_tick(participant_id: u64, step: Step<TestGameStep>) -> ParticipantSteps<TestGameStep> {
    let mut steps = ParticipantSteps::new();
    steps.push(participant_id, step);
    steps
}

#[test]
fn test_assent() {
    let mut game = TestGame { position_x: -44 };
    let mut assent: Assent<TestGameStep> = Assent::new();
    let mut steps = ParticipantSteps::new();
    let step = TestGameStep::MoveLeft;
    let custom_step = Step::Custom(step);
    steps.push(42, custom_step);
    assent.push(steps);
    assent.update(&mut game);
    assert_eq!(game.position_x, -45);
}

#[test]
fn test_seer() {
    let mut game = TestGame { position_x: -44 };
    let mut seer: Seer<TestGameStep> = Seer::new();
    seer.push(one_tick(0, Step::Custom(TestGameStep::MoveRight)));
    seer.update(&mut game);
    assert_eq!(game.position_x, -43);
}

#[test]
fn it_works() {
    let mut authoritative_game = TestGame { position_x: -44 };
    let mut predicted_game = TestGame { position_x: -44 };
    let mut callbacks = TestCallback { copies: 0 };
    let mut rectify: Rectify<TestGameStep> = Rectify::new();
    rectify.push_authoritative(one_tick(42, Step::Custom(TestGameStep::MoveRight)));
    rectify.update(&mut callbacks, &mut authoritative_game, &mut predicted_game);
    assert_eq!(authoritative_game.position_x, -43);
}

#[test]
fn scenario_pushed_step_is_applied_and_consumed() {
    let mut game = TestGame { position_x: 10 };
    let mut assent: Assent<TestGameStep> = Assent::new();
    assent.push(one_tick(42, Step::Custom(TestGameStep::MoveLeft)));
    let state = assent.update(&mut game);
    assert_eq!(game.position_x, 9);
    assert_eq!(state, UpdateState::ConsumedAllKnowledge);
}

#[test]
fn scenario_drain_cap_spreads_backlog_over_two_updates() {
    let mut game = TestGame { position_x: 0 };
    let mut assent: Assent<TestGameStep> = Assent::new();
    assent.set_max_ticks_per_update(1);
    assent.push(one_tick(1, Step::Custom(TestGameStep::MoveRight)));
    assent.push(one_tick(1, Step::Custom(TestGameStep::MoveRight)));
    let first = assent.update(&mut game);
    assert_eq!(first, UpdateState::DidNotConsumeAllKnowledge);
    assert_eq!(game.position_x, 1);
    let second = assent.update(&mut game);
    assert_eq!(second, UpdateState::ConsumedAllKnowledge);
    assert_eq!(game.position_x, 2);
}

struct OrderedRectify {
    order: Rc<RefCell<Vec<&'static str>>>,
}

struct OrderedGame {
    order: Rc<RefCell<Vec<&'static str>>>,
}

impl RectifyCallback for OrderedRectify {
    fn on_copy_from_authoritative(&mut self) {
        self.order.borrow_mut().push("copy_from_authoritative");
    }
}

impl AssentCallback<TestGameStep> for OrderedGame {
    fn on_pre_ticks(&mut self) {
        self.order.borrow_mut().push("authoritative_pre_ticks");
    }

    fn on_tick(&mut self, _steps: &ParticipantSteps<TestGameStep>) {
        self.order.borrow_mut().push("authoritative_tick");
    }
}

impl SeerCallback<TestGameStep> for OrderedGame {
    fn on_copy_from_authoritative(&mut self) {
        self.order.borrow_mut().push("seer_copy_from_authoritative");
    }

    fn on_tick(&mut self, _step: &ParticipantSteps<TestGameStep>) {
        self.order.borrow_mut().push("predictive_tick");
    }

    fn on_post_ticks(&mut self) {
        self.order.borrow_mut().push("predictive_post_ticks");
    }
}

#[test]
fn scenario_rebase_fires_once_before_predictive_tick() {
    let order: Rc<RefCell<Vec<&'static str>>> = Rc::new(RefCell::new(Vec::new()));
    let mut rebase = OrderedRectify { order: Rc::clone(&order) };
    let mut auth = OrderedGame { order: Rc::clone(&order) };
    let mut pred = OrderedGame { order: Rc::clone(&order) };
    let mut rectify: Rectify<TestGameStep> = Rectify::new();
    rectify.push_predictive(one_tick(7, Step::Custom(TestGameStep::MoveLeft)));
    rectify.update(&mut rebase, &mut auth, &mut pred);
    let recorded = order.borrow();
    assert_eq!(
        *recorded,
        vec!["copy_from_authoritative", "predictive_tick", "predictive_post_ticks"]
    );
}

#[test]
fn rebase_does_not_fire_while_backlog_remains() {
    let order: Rc<RefCell<Vec<&'static str>>> = Rc::new(RefCell::new(Vec::new()));
    let mut rebase = OrderedRectify { order: Rc::clone(&order) };
    let mut auth = OrderedGame { order: Rc::clone(&order) };
    let mut pred = OrderedGame { order: Rc::clone(&order) };
    let mut rectify: Rectify<TestGameStep> = Rectify::new();
    rectify.set_max_ticks_per_update(1);
    rectify.push_authoritative(one_tick(1, Step::Custom(TestGameStep::MoveLeft)));
    rectify.push_authoritative(one_tick(1, Step::Custom(TestGameStep::MoveLeft)));
    rectify.update(&mut rebase, &mut auth, &mut pred);
    let first: Vec<&'static str> = order.borrow().clone();
    assert_eq!(first, vec!["authoritative_pre_ticks", "authoritative_tick"]);
    order.borrow_mut().clear();
    rectify.update(&mut rebase, &mut auth, &mut pred);
    let second: Vec<&'static str> = order.borrow().clone();
    assert_eq!(
        second,
        vec![
            "authoritative_pre_ticks",
            "authoritative_tick",
            "copy_from_authoritative"
        ]
    );
}

struct TickRecorder {
    batches: Vec<Vec<u64>>,
}

impl AssentCallback<TestGameStep> for TickRecorder {
    fn on_pre_ticks(&mut self) {}

    fn on_tick(&mut self, steps: &ParticipantSteps<TestGameStep>) {
        let mut ids: Vec<u64> = Vec::new();
        for entry in steps.steps.iter() {
            ids.push(entry.participant_id);
        }
        self.batches.push(ids);
    }
}

fn feed(assent: &mut Assent<TestGameStep>, recorder: &mut TickRecorder) {
    assent.push(one_tick(3, Step::Custom(TestGameStep::MoveLeft)));
    assent.push(one_tick(1, Step::Forced));
    assent.update(recorder);
    assent.push(one_tick(2, Step::WaitingForReconnect));
    assent.update(recorder);
    assent.update(recorder);
}

#[test]
fn determinism_identical_call_sequences_identical_ticks() {
    let mut first: Assent<TestGameStep> = Assent::new();
    let mut second: Assent<TestGameStep> = Assent::new();
    let mut first_recorder = TickRecorder { batches: Vec::new() };
    let mut second_recorder = TickRecorder { batches: Vec::new() };
    feed(&mut first, &mut first_recorder);
    feed(&mut second, &mut second_recorder);
    assert_eq!(first_recorder.batches, second_recorder.batches);
    assert_eq!(first_recorder.batches, vec![vec![3], vec![1], vec![2]]);
}

#[test]
fn consumption_accounting_on_empty_buffer() {
    let mut game = TestGame { position_x: 0 };
    let mut assent: Assent<TestGameStep> = Assent::default();
    let state = assent.update(&mut game);
    assert_eq!(state, UpdateState::ConsumedAllKnowledge);
    assert_eq!(game.position_x, 0);
}

#[test]
fn flag_set_only_by_signal_and_cleared_by_next_update() {
    let mut game = TestGame { position_x: 0 };
    let mut seer: Seer<TestGameStep> = Seer::default();
    assert!(!seer.has_authoritative_changed());
    seer.push(one_tick(1, Step::Custom(TestGameStep::MoveRight)));
    assert!(!seer.has_authoritative_changed());
    seer.authoritative_has_changed();
    assert!(seer.has_authoritative_changed());
    seer.push(one_tick(1, Step::Custom(TestGameStep::MoveRight)));
    assert!(seer.has_authoritative_changed());
    seer.update(&mut game);
    assert!(!seer.has_authoritative_changed());
    seer.update(&mut game);
    assert!(!seer.has_authoritative_changed());
}

#[test]
fn predictive_update_advances_one_tick_per_call_by_default() {
    let mut game = TestGame { position_x: 0 };
    let mut seer: Seer<TestGameStep> = Seer::new();
    seer.push(one_tick(1, Step::Custom(TestGameStep::MoveRight)));
    seer.push(one_tick(1, Step::Custom(TestGameStep::MoveRight)));
    seer.update(&mut game);
    assert_eq!(game.position_x, 1);
    seer.update(&mut game);
    assert_eq!(game.position_x, 2);
    seer.update(&mut game);
    assert_eq!(game.position_x, 2);
}

#[test]
fn predictive_update_drains_all_under_all_buffered_policy() {
    let mut game = TestGame { position_x: 0 };
    let mut seer: Seer<TestGameStep> = Seer::new();
    seer.set_drain_policy(DrainPolicy::AllBuffered);
    seer.push(one_tick(1, Step::Custom(TestGameStep::MoveRight)));
    seer.push(one_tick(1, Step::Custom(TestGameStep::MoveRight)));
    seer.push(one_tick(1, Step::Custom(TestGameStep::MoveRight)));
    seer.update(&mut game);
    assert_eq!(game.position_x, 3);
}

#[test]
fn participant_steps_keep_insertion_order() {
    let mut steps: ParticipantSteps<TestGameStep> = ParticipantSteps::new();
    steps.push(2, Step::Custom(TestGameStep::MoveLeft));
    steps.push(5, Step::Forced);
    steps.push(9, Step::WaitingForReconnect);
    assert_eq!(steps.len(), 3);
    assert!(!steps.is_empty());
    assert_eq!(steps.get(0).participant_id, 2);
    assert_eq!(steps.get(1).participant_id, 5);
    assert_eq!(steps.get(2).participant_id, 9);
    assert_eq!(steps.first().unwrap().participant_id, 2);
    assert!(matches!(steps.get(1).step, Step::Forced));
}

#[test]
fn forced_and_reconnect_steps_reach_the_callback_unchanged() {
    let mut assent: Assent<TestGameStep> = Assent::new();
    let mut tick = ParticipantSteps::new();
    tick.push(1, Step::Forced);
    tick.push(2, Step::WaitingForReconnect);
    assent.push(tick);
    let mut recorder = TickRecorder { batches: Vec::new() };
    let state = assent.update(&mut recorder);
    assert_eq!(state, UpdateState::ConsumedAllKnowledge);
    assert_eq!(recorder.batches, vec![vec![1, 2]]);
}

#[test]
fn zero_cap_drains_nothing() {
    let mut game = TestGame { position_x: 0 };
    let mut assent: Assent<TestGameStep> = Assent::new();
    assent.set_max_ticks_per_update(0);
    assent.push(one_tick(1, Step::Custom(TestGameStep::MoveRight)));
    let state = assent.update(&mut game);
    assert_eq!(state, UpdateState::DidNotConsumeAllKnowledge);
    assert_eq!(game.position_x, 0);
}
