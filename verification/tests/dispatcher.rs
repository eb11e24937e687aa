use wuestite_ecs::EventDispatcher;

#[derive(Debug, PartialEq)]
struct Explosion {
    power: u32,
}

const EXPLOSION: u64 = 1;
const SILENCE: u64 = 2;

type Answering = Box<dyn Fn(&Explosion) -> u32>;

#[test]
fn dispatch_without_listeners_calls_nobody() {
    let dispatcher: EventDispatcher<Answering> = EventDispatcher::new();
    assert_eq!(dispatcher.dispatch(EXPLOSION, &Explosion { power: 1 }), Vec::<u32>::new());
}

#[test]
fn default_dispatcher_has_no_listeners() {
    let dispatcher: EventDispatcher<Answering> = EventDispatcher::default();
    assert_eq!(dispatcher.dispatch(EXPLOSION, &Explosion { power: 1 }), Vec::<u32>::new());
}

#[test]
fn dispatch_answers_come_in_registration_order() {
    let mut dispatcher: EventDispatcher<Answering> = EventDispatcher::new();
    dispatcher.add_listener(EXPLOSION, Box::new(|event| event.power + 1));
    dispatcher.add_listener(EXPLOSION, Box::new(|event| event.power * 2));
    dispatcher.add_listener(EXPLOSION, Box::new(|_| 0));
    assert_eq!(dispatcher.dispatch(EXPLOSION, &Explosion { power: 50 }), vec![51, 100, 0]);
}

#[test]
fn dispatch_reaches_only_the_listeners_of_the_kind() {
    let mut dispatcher: EventDispatcher<Answering> = EventDispatcher::new();
    dispatcher.add_listener(EXPLOSION, Box::new(|event| event.power));
    dispatcher.add_listener(SILENCE, Box::new(|_| 7));
    dispatcher.add_listener(EXPLOSION, Box::new(|event| event.power + 1));
    assert_eq!(dispatcher.dispatch(EXPLOSION, &Explosion { power: 3 }), vec![3, 4]);
    assert_eq!(dispatcher.dispatch(SILENCE, &Explosion { power: 3 }), vec![7]);
    assert_eq!(dispatcher.dispatch(99, &Explosion { power: 3 }), Vec::<u32>::new());
}

#[test]
fn every_listener_is_called_once_per_dispatch_and_in_order() {
    let log = std::rc::Rc::new(std::cell::RefCell::new(Vec::new()));
    let mut dispatcher: EventDispatcher<Box<dyn Fn(&Explosion)>> = EventDispatcher::new();
    for tag in ["first", "second", "third"] {
        let log = std::rc::Rc::clone(&log);
        dispatcher.add_listener(
            EXPLOSION,
            Box::new(move |event: &Explosion| log.borrow_mut().push((tag, event.power))),
        );
    }
    let answers = dispatcher.dispatch(EXPLOSION, &Explosion { power: 5 });
    assert_eq!(answers.len(), 3);
    assert_eq!(*log.borrow(), vec![("first", 5), ("second", 5), ("third", 5)]);
    dispatcher.dispatch(EXPLOSION, &Explosion { power: 6 });
    assert_eq!(log.borrow().len(), 6);
    assert_eq!(log.borrow()[3..], [("first", 6), ("second", 6), ("third", 6)]);
}

#[test]
fn a_dispatched_event_is_not_kept() {
    let count = std::rc::Rc::new(std::cell::Cell::new(0u32));
    let mut dispatcher: EventDispatcher<Box<dyn Fn(&Explosion)>> = EventDispatcher::new();
    dispatcher.dispatch(EXPLOSION, &Explosion { power: 1 });
    let seen = std::rc::Rc::clone(&count);
    dispatcher.add_listener(EXPLOSION, Box::new(move |_: &Explosion| seen.set(seen.get() + 1)));
    assert_eq!(count.get(), 0);
    dispatcher.dispatch(EXPLOSION, &Explosion { power: 2 });
    assert_eq!(count.get(), 1);
}

#[test]
fn plain_closures_of_one_type_can_listen() {
    let mut dispatcher = EventDispatcher::new();
    let scale = 3u32;
    let listener = move |event: &Explosion| event.power * scale;
    dispatcher.add_listener(EXPLOSION, listener);
    assert_eq!(dispatcher.dispatch(EXPLOSION, &Explosion { power: 4 }), vec![12]);
}
