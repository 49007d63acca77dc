use clashctl::event::{Event, InputEvent};
use clashctl::keys::{key_event, Key};
use clashctl::list::ListNavEvent;

#[test]
fn keys_map_to_events() {
    assert!(matches!(key_event(Key::Char('q')), Event::Quit));
    assert!(matches!(key_event(Key::Ctrl('c')), Event::Quit));
    assert!(matches!(key_event(Key::Char('3')), Event::Input(InputEvent::TabGoto(3))));
    assert!(matches!(key_event(Key::Ctrl('d')), Event::Input(InputEvent::ToggleDebug)));
    assert!(matches!(key_event(Key::Char(' ')), Event::Input(InputEvent::ToggleHold)));
    assert!(matches!(key_event(Key::Char('t')), Event::Input(InputEvent::TestLatency)));
    assert!(matches!(key_event(Key::Up), Event::Input(InputEvent::List(ListNavEvent::Up))));
    assert!(matches!(key_event(Key::Esc), Event::Input(InputEvent::Esc)));
    match key_event(Key::Char('z')) {
        Event::Input(InputEvent::Other(s)) => assert_eq!(s, "z"),
        _ => panic!("expected an unbound key"),
    }
    match key_event(Key::Ctrl('x')) {
        Event::Input(InputEvent::Other(s)) => assert_eq!(s, "^x"),
        _ => panic!("expected an unbound key"),
    }
}
