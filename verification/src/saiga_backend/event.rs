use vstd::prelude::*;

verus! {

/// What the terminal tells the outside world.
#[derive(Clone, Debug)]
pub enum Event {
    SetTitle(String),
    PtyWrite(Vec<u8>),
    Bell,
}

/// An [`Event`] as a value.
pub enum EventV {
    SetTitle(Seq<char>),
    PtyWrite(Seq<u8>),
    Bell,
}

impl View for Event {
    type V = EventV;

    open spec fn view(&self) -> EventV {
        match self {
            Event::SetTitle(t) => EventV::SetTitle(t@),
            Event::PtyWrite(b) => EventV::PtyWrite(b@),
            Event::Bell => EventV::Bell,
        }
    }
}

/// Receives the terminal's events.
pub trait EventListener {
    /// The record of the events this listener has received, oldest first.
    /// An implementation that does not define the record (the closed
    /// default is always empty) does not meet `on_event`'s contract.
    closed spec fn events(&self) -> Seq<EventV> {
        Seq::empty()
    }

    /// Receives `event`; the record gains it.
    fn on_event(&mut self, event: Event)
        ensures
            final(self).events() == old(self).events().push(event@),
    ;
}

} // verus!
