use simple_engine::input_suite::input_forwards_signal__already_running__register_on_running;
use simple_engine::input_suite::input_forwards_signal__register_before_start;
use simple_engine::input_suite::input_forwards_signal__reversed__already_running;
use simple_engine::input_suite::input_forwards_signal__reversed__register_before_start;
use simple_engine::input_suite::input_forwards_signal__reversed__start_after_emitter_register;
use simple_engine::input_suite::input_forwards_signal__start_after_emitter_register;
use simple_engine::internal::Phase;
use simple_engine::sanity_suite::engine_can_be_started_and_stopped;
use simple_engine::sanity_suite::engine_can_be_started_and_stopped_without_waiting;

#[test]
#[allow(non_snake_case)]
fn scenario_already_running__register_on_running() {
    assert_eq!(input_forwards_signal__already_running__register_on_running(), vec![42]);
}

#[test]
#[allow(non_snake_case)]
fn scenario_register_before_start() {
    assert_eq!(input_forwards_signal__register_before_start(), vec![42]);
}

#[test]
#[allow(non_snake_case)]
fn scenario_start_after_emitter_register() {
    assert_eq!(input_forwards_signal__start_after_emitter_register(), vec![42]);
}

#[test]
#[allow(non_snake_case)]
fn scenario_reversed__already_running() {
    assert_eq!(input_forwards_signal__reversed__already_running(), vec![42]);
}

#[test]
#[allow(non_snake_case)]
fn scenario_reversed__register_before_start() {
    assert_eq!(input_forwards_signal__reversed__register_before_start(), vec![42]);
}

#[test]
#[allow(non_snake_case)]
fn scenario_reversed__start_after_emitter_register() {
    assert_eq!(input_forwards_signal__reversed__start_after_emitter_register(), vec![42]);
}

#[test]
fn started_and_stopped() {
    assert_eq!(engine_can_be_started_and_stopped(), (Phase::Running, Phase::Terminated));
}

#[test]
fn started_and_stopped_without_waiting() {
    assert_eq!(
        engine_can_be_started_and_stopped_without_waiting(),
        (Phase::Running, Phase::Terminated)
    );
}
