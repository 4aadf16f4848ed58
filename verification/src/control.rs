//! The adjustable parameters of a device.

use vstd::prelude::*;

verus! {

/// The kind of value a control takes, with the range it allows.
#[derive(Clone, Copy, Debug, PartialEq, Eq, Structural)]
pub enum Kind {
    /// On or off.
    Boolean,
    /// A whole number within `min..=max`.
    Integer { min: i64, max: i64 },
    /// One of `entries` menu entries, counted from zero.
    Menu { entries: u32 },
}

/// A value read from a control or written to one.
#[derive(Clone, Copy, Debug, PartialEq, Eq, Structural)]
pub enum Value {
    /// On or off.
    Boolean(bool),
    /// A whole number.
    Integer(i64),
    /// The index of a menu entry.
    Menu(u32),
}

impl Kind {
    /// A value is of this kind when the variants agree and the value lies
    /// in the range.
    pub open spec fn admits(self, value: Value) -> bool {
        match (self, value) {
            (Kind::Boolean, Value::Boolean(_)) => true,
            (Kind::Integer { min, max }, Value::Integer(n)) => min <= n <= max,
            (Kind::Menu { entries }, Value::Menu(index)) => index < entries,
            _ => false,
        }
    }
}

/// One adjustable parameter as a device declares it.
#[derive(Debug)]
pub struct Control {
    /// The number the device knows the control by.
    pub id: u32,
    /// The name shown to people.
    pub name: String,
    /// The values the control takes.
    pub kind: Kind,
}

/// The mathematical value of a [`Control`].
pub struct ControlModel {
    pub id: u32,
    pub name: Seq<char>,
    pub kind: Kind,
}

impl View for Control {
    type V = ControlModel;

    open spec fn view(&self) -> ControlModel {
        ControlModel { id: self.id, name: self.name@, kind: self.kind }
    }
}

impl Clone for Control {
    fn clone(&self) -> (r: Control)
        ensures
            r == *self,
    {
        Control { id: self.id, name: self.name.clone(), kind: self.kind }
    }
}

impl Control {
    /// Whether `value` is of the kind this control declares.
    pub fn accepts(&self, value: &Value) -> (r: bool)
        ensures
            r == self.kind.admits(*value),
    {
        match (self.kind, *value) {
            (Kind::Boolean, Value::Boolean(_)) => true,
            (Kind::Integer { min, max }, Value::Integer(n)) => min <= n && n <= max,
            (Kind::Menu { entries }, Value::Menu(index)) => index < entries,
            _ => false,
        }
    }
}

/// Among `controls` one has the number `id` and admits `value`.
pub open spec fn declares(controls: Seq<ControlModel>, id: u32, value: Value) -> bool {
    exists|i: int|
        0 <= i < controls.len() && (#[trigger] controls[i]).id == id && controls[i].kind.admits(
            value,
        )
}

} // verus!
