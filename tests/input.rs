use roa::events::{
    subscribed_events, AnySubscriber, Event, JoinSubscriber, KeySubscriber, MultiSubscriber,
    Subscriber,
};
use roa::input::{ElementState, InputEvent, Key, KeyCode, KeyReader};
use roa::screens::{main_game_input, PauseState};
use roa::state::{EventUpdate, Update};
use roa::util::KeyTracker;

#[test]
fn key_reader_test_interpreting_events() {
    let kr = KeyReader::new();
    assert_eq!(kr.interpret_code(&KeyCode::Z), Some(Key::X));
    assert_eq!(kr.interpret_code(&KeyCode::X), Some(Key::Y));
    assert_eq!(kr.interpret_code(&KeyCode::C), Some(Key::Z));
    assert_eq!(kr.interpret_code(&KeyCode::A), Some(Key::A));
    assert_eq!(kr.interpret_code(&KeyCode::S), Some(Key::B));
    assert_eq!(kr.interpret_code(&KeyCode::D), Some(Key::C));
    assert_eq!(kr.interpret_code(&KeyCode::Up), Some(Key::Up));
    assert_eq!(kr.interpret_code(&KeyCode::Down), Some(Key::Down));
    assert_eq!(kr.interpret_code(&KeyCode::Left), Some(Key::Left));
    assert_eq!(kr.interpret_code(&KeyCode::Right), Some(Key::Right));
    assert_eq!(kr.interpret_code(&KeyCode::Return), Some(Key::Start));
    assert_eq!(kr.interpret_code(&KeyCode::Space), Some(Key::Select));
    assert_eq!(kr.interpret_code(&KeyCode::W), None);
    assert_eq!(kr.interpret_code(&KeyCode::Q), None);
}

#[test]
fn only_presses_are_interpreted() {
    let kr = KeyReader::new();
    let press = InputEvent::KeyboardInput(ElementState::Pressed, Some(KeyCode::Up));
    let release = InputEvent::KeyboardInput(ElementState::Released, Some(KeyCode::Up));
    assert_eq!(kr.interpret_event(&press), Some(Key::Up));
    assert_eq!(kr.interpret_event(&release), None);
    assert_eq!(kr.interpret_event(&InputEvent::KeyboardInput(ElementState::Pressed, None)), None);
    assert_eq!(kr.interpret_event(&InputEvent::Closed), None);
}

#[test]
fn key_tracker_tracks_held_keys() {
    let mut t = KeyTracker::new();
    assert!(t.held_keys().is_empty());
    t.pressed(Key::A);
    t.pressed(Key::B);
    t.pressed(Key::A);
    let mut held = t.held_keys();
    held.sort_by_key(|k| format!("{:?}", k));
    assert_eq!(held, vec![Key::A, Key::B]);
    t.released(Key::A);
    t.released(Key::Start);
    assert_eq!(t.held_keys(), vec![Key::B]);
}

#[test]
fn events_convert_from_key_and_state() {
    let e = Event::from((Key::Left, ElementState::Pressed));
    assert_eq!(e, Event::Key(Key::Left, ElementState::Pressed));
}

#[test]
fn subscribers_pick_events() {
    let events = vec![
        Event::Key(Key::A, ElementState::Pressed),
        Event::Key(Key::B, ElementState::Released),
    ];
    assert!(AnySubscriber.is_subscribed(&events[0]));
    assert!(KeySubscriber.is_subscribed(&events[1]));
    let joined: MultiSubscriber<AnySubscriber, KeySubscriber> = AnySubscriber.join(KeySubscriber);
    assert!(joined.is_subscribed(&events[0]));
    assert_eq!(subscribed_events(&joined, &events), events);
    assert_eq!(subscribed_events(&KeySubscriber, &Vec::new()), Vec::new());
}

#[test]
fn pause_pops_on_p_release() {
    let mut p = PauseState::new();
    assert_eq!(p.name(), "Pause");
    let release_p = InputEvent::KeyboardInput(ElementState::Released, Some(KeyCode::P));
    let press_p = InputEvent::KeyboardInput(ElementState::Pressed, Some(KeyCode::P));
    let r: EventUpdate<u8, u8> = p.process_input(&release_p);
    assert!(matches!(r, EventUpdate::Update(Update::Pop)));
    let r: EventUpdate<u8, u8> = p.process_input(&press_p);
    assert!(matches!(r, EventUpdate::Halt));
}

#[test]
fn main_game_closes_on_close_or_escape() {
    let esc = InputEvent::KeyboardInput(ElementState::Released, Some(KeyCode::Escape));
    let esc_down = InputEvent::KeyboardInput(ElementState::Pressed, Some(KeyCode::Escape));
    let r: EventUpdate<u8, u8> = main_game_input(&InputEvent::Closed);
    assert!(matches!(r, EventUpdate::Update(Update::Pop)));
    let r: EventUpdate<u8, u8> = main_game_input(&esc);
    assert!(matches!(r, EventUpdate::Update(Update::Pop)));
    let r: EventUpdate<u8, u8> = main_game_input(&esc_down);
    assert!(matches!(r, EventUpdate::Halt));
    let r: EventUpdate<u8, u8> = main_game_input(&InputEvent::Focused(false));
    assert!(matches!(r, EventUpdate::Halt));
}
