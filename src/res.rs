use vstd::prelude::*;

verus! {

/// Kinds of resources.
#[derive(Clone, Copy, Debug, PartialEq, Eq, Structural)]
pub enum ResType {
    Food,
    Wood,
    Stone,
}

impl ResType {
    /// Display name of the resource kind.
    pub fn to(&self) -> (name: String)
        ensures
            name@ == match self {
                ResType::Food => "食物"@,
                ResType::Wood => "木材"@,
                ResType::Stone => "石头"@,
            },
    {
        match self {
            ResType::Food => "食物".to_owned(),
            ResType::Wood => "木材".to_owned(),
            ResType::Stone => "石头".to_owned(),
        }
    }
}

/// A stock of one resource that changes by `change_value` every
/// `change_interval` milliseconds; `last_update` is the time of the last change.
#[derive(Debug)]
pub struct Res {
    pub name: String,
    pub num: i128,
    pub max: i128,
    pub last_update: u64,
    pub change_interval: u64,
    pub change_value: i128,
}

impl Res {
    /// A stock last updated at `now`.
    pub fn new(
        name: String,
        num: i128,
        max: i128,
        change_interval: u64,
        change_value: i128,
        now: u64,
    ) -> (r: Res)
        ensures
            r.name == name,
            r.num == num,
            r.max == max,
            r.last_update == now,
            r.change_interval == change_interval,
            r.change_value == change_value,
    {
        Res { name, num, max, last_update: now, change_interval, change_value }
    }
}

} // verus!
