use gear::{Engine, EngineMessage, EngineState};

#[test]
fn new_engine_is_stopped() {
    let engine = Engine::new();
    assert_eq!(engine.engine_state(), EngineState::Stopped);
    assert!(!engine.is_running());
    assert_eq!(engine.main_timer_nanos(), 0);
}

#[test]
fn stop_message_requests_stop() {
    let mut engine = Engine::new();
    engine.start();
    assert!(engine.is_running());
    engine.tick(16, EngineMessage::Nothing);
    assert!(engine.is_running());
    engine.tick(17, EngineMessage::StopEngine);
    assert_eq!(engine.engine_state(), EngineState::RequestingStop);
    assert!(!engine.is_running());
    assert_eq!(engine.main_timer_nanos(), 33);
    engine.finish();
    assert_eq!(engine.engine_state(), EngineState::Stopped);
}

#[test]
fn handle_message_without_message_keeps_state() {
    let mut engine = Engine::new();
    engine.start();
    engine.handle_message(EngineMessage::Nothing);
    assert_eq!(engine.engine_state(), EngineState::Running);
    engine.handle_message(EngineMessage::StopEngine);
    assert_eq!(engine.engine_state(), EngineState::RequestingStop);
}

#[test]
fn restart_resets_timer() {
    let mut engine = Engine::new();
    engine.start();
    engine.tick(1_000, EngineMessage::Nothing);
    engine.finish();
    engine.start();
    assert_eq!(engine.main_timer_nanos(), 0);
    assert!(engine.is_running());
}
