//! Collision and trigger event streams emitted by the narrow phase.
//!
//! Both streams classify each pair transition: a pair newly colliding, a
//! pair still colliding, and a pair that stopped colliding. A pair goes
//! to the trigger stream when either participant is flagged as a
//! trigger, and to the collision stream otherwise — never to both.

use vstd::prelude::*;
use crate::physics::QObject;

verus! {

/// Trigger events: detect-only pair transitions.
#[derive(Clone, Copy, Debug, PartialEq, Eq, Structural)]
pub enum QTriggerEvent {
    /// A pair entered collision in this frame.
    Enter(QObject, QObject),
    /// A pair stays in collision from the previous frame.
    Stay(QObject, QObject),
    /// A pair stopped colliding in this frame.
    Exit(QObject, QObject),
}

/// The two participants of a trigger event.
pub open spec fn trigger_event_pair(e: QTriggerEvent) -> (QObject, QObject) {
    match e {
        QTriggerEvent::Enter(a, b) => (a, b),
        QTriggerEvent::Stay(a, b) => (a, b),
        QTriggerEvent::Exit(a, b) => (a, b),
    }
}

impl QTriggerEvent {
    /// The objects involved in this trigger event.
    pub fn entities(&self) -> (r: (QObject, QObject))
        ensures
            r == trigger_event_pair(*self),
    {
        match self {
            QTriggerEvent::Enter(a, b) => (*a, *b),
            QTriggerEvent::Stay(a, b) => (*a, *b),
            QTriggerEvent::Exit(a, b) => (*a, *b),
        }
    }

    /// Whether this is an enter event.
    pub fn is_enter(&self) -> (r: bool)
        ensures
            r == (self is Enter),
    {
        matches!(self, QTriggerEvent::Enter(_, _))
    }

    /// Whether this is a stay event.
    pub fn is_stay(&self) -> (r: bool)
        ensures
            r == (self is Stay),
    {
        matches!(self, QTriggerEvent::Stay(_, _))
    }

    /// Whether this is an exit event.
    pub fn is_exit(&self) -> (r: bool)
        ensures
            r == (self is Exit),
    {
        matches!(self, QTriggerEvent::Exit(_, _))
    }
}

/// Collision events: physically resolved pair transitions.
#[derive(Clone, Copy, Debug, PartialEq, Eq, Structural)]
pub enum QCollisionEvent {
    /// A pair began colliding in this frame.
    Started(QObject, QObject),
    /// A pair continues colliding from the previous frame.
    Ongoing(QObject, QObject),
    /// A pair stopped colliding in this frame.
    Ended(QObject, QObject),
}

/// The two participants of a collision event.
pub open spec fn collision_event_pair(e: QCollisionEvent) -> (QObject, QObject) {
    match e {
        QCollisionEvent::Started(a, b) => (a, b),
        QCollisionEvent::Ongoing(a, b) => (a, b),
        QCollisionEvent::Ended(a, b) => (a, b),
    }
}

impl QCollisionEvent {
    /// The objects involved in this collision event.
    pub fn entities(&self) -> (r: (QObject, QObject))
        ensures
            r == collision_event_pair(*self),
    {
        match self {
            QCollisionEvent::Started(a, b) => (*a, *b),
            QCollisionEvent::Ongoing(a, b) => (*a, *b),
            QCollisionEvent::Ended(a, b) => (*a, *b),
        }
    }

    /// Whether this is a started event.
    pub fn is_started(&self) -> (r: bool)
        ensures
            r == (self is Started),
    {
        matches!(self, QCollisionEvent::Started(_, _))
    }

    /// Whether this is an ongoing event.
    pub fn is_ongoing(&self) -> (r: bool)
        ensures
            r == (self is Ongoing),
    {
        matches!(self, QCollisionEvent::Ongoing(_, _))
    }

    /// Whether this is an ended event.
    pub fn is_ended(&self) -> (r: bool)
        ensures
            r == (self is Ended),
    {
        matches!(self, QCollisionEvent::Ended(_, _))
    }
}

} // verus!
