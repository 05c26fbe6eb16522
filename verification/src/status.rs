//! The telemetry status store.
//!
//! A mapping from the seven fixed telemetry keys to string-encoded values:
//! booleans as `"1"`/`"0"`, numbers as their decimal text, the flow as
//! `"charge"` or `"discharge"`.  A key is present once at least one frame
//! has produced it; each update overwrites the prior value; keys are never
//! removed.  One field per key keeps the store a plain value that the
//! decode path mutates and a publisher reads between chunks.

use vstd::prelude::*;

verus! {

/// The text of one store entry, when the key has been produced.
pub open spec fn opt_text(o: Option<String>) -> Option<Seq<char>> {
    match o {
        Some(s) => Some(s@),
        None => None,
    }
}

/// Abstract value of the store: the current text under each key.
pub struct StatusModel {
    pub genset_engaged: Option<Seq<char>>,
    pub genset_requested: Option<Seq<char>>,
    pub genset_output: Option<Seq<char>>,
    pub flow: Option<Seq<char>>,
    pub load: Option<Seq<char>>,
    pub battery_fan: Option<Seq<char>>,
    pub battery_charge: Option<Seq<char>>,
}

/// The current telemetry snapshot, one field per key.
#[derive(Debug)]
pub struct Status {
    /// Key `genset/engaged`: `"1"` or `"0"`.
    pub genset_engaged: Option<String>,
    /// Key `genset/requested`: `"1"` or `"0"`.
    pub genset_requested: Option<String>,
    /// Key `genset/output`: generator output power, decimal text.
    pub genset_output: Option<String>,
    /// Key `flow`: `"charge"` or `"discharge"`.
    pub flow: Option<String>,
    /// Key `load`: load power, decimal text.
    pub load: Option<String>,
    /// Key `battery/fan`: `"1"` or `"0"`.
    pub battery_fan: Option<String>,
    /// Key `battery/charge`: charge percentage, decimal text.
    pub battery_charge: Option<String>,
}

impl View for Status {
    type V = StatusModel;

    open spec fn view(&self) -> StatusModel {
        StatusModel {
            genset_engaged: opt_text(self.genset_engaged),
            genset_requested: opt_text(self.genset_requested),
            genset_output: opt_text(self.genset_output),
            flow: opt_text(self.flow),
            load: opt_text(self.load),
            battery_fan: opt_text(self.battery_fan),
            battery_charge: opt_text(self.battery_charge),
        }
    }
}

/// The store with no key present.
pub open spec fn empty_status() -> StatusModel {
    StatusModel {
        genset_engaged: None,
        genset_requested: None,
        genset_output: None,
        flow: None,
        load: None,
        battery_fan: None,
        battery_charge: None,
    }
}

/// The snapshot entry one key contributes: its pair when present, nothing
/// otherwise.
pub open spec fn entry(key: Seq<char>, value: Option<Seq<char>>) -> Seq<(Seq<char>, Seq<char>)> {
    match value {
        Some(t) => seq![(key, t)],
        None => Seq::empty(),
    }
}

/// The published snapshot of a store: the present keys under their wire
/// names, each with its current text, in a fixed order.
pub open spec fn snapshot_model(sv: StatusModel) -> Seq<(Seq<char>, Seq<char>)> {
    entry("genset/engaged"@, sv.genset_engaged) + entry("genset/requested"@, sv.genset_requested)
        + entry("genset/output"@, sv.genset_output) + entry("flow"@, sv.flow) + entry(
        "load"@,
        sv.load,
    ) + entry("battery/fan"@, sv.battery_fan) + entry("battery/charge"@, sv.battery_charge)
}

/// The texts of a sequence of owned key/value pairs.
pub open spec fn pairs_text(ps: Seq<(String, String)>) -> Seq<(Seq<char>, Seq<char>)> {
    ps.map_values(|p: (String, String)| (p.0@, p.1@))
}

impl Status {
    /// A fresh store with no key present.
    pub fn new() -> (s: Status)
        ensures
            s@ == empty_status(),
    {
        Status {
            genset_engaged: None,
            genset_requested: None,
            genset_output: None,
            flow: None,
            load: None,
            battery_fan: None,
            battery_charge: None,
        }
    }

    /// The snapshot the publisher reads: every present key under its wire
    /// name with its current text, exactly [`snapshot_model`] of the store.
    pub fn snapshot(&self) -> (r: Vec<(String, String)>)
        ensures
            pairs_text(r@) == snapshot_model(self@),
    {
        let mut r: Vec<(String, String)> = Vec::new();
        if let Some(v) = &self.genset_engaged {
            r.push((String::from_str("genset/engaged"), v.clone()));
        }
        if let Some(v) = &self.genset_requested {
            r.push((String::from_str("genset/requested"), v.clone()));
        }
        if let Some(v) = &self.genset_output {
            r.push((String::from_str("genset/output"), v.clone()));
        }
        if let Some(v) = &self.flow {
            r.push((String::from_str("flow"), v.clone()));
        }
        if let Some(v) = &self.load {
            r.push((String::from_str("load"), v.clone()));
        }
        if let Some(v) = &self.battery_fan {
            r.push((String::from_str("battery/fan"), v.clone()));
        }
        if let Some(v) = &self.battery_charge {
            r.push((String::from_str("battery/charge"), v.clone()));
        }
        proof {
            assert(pairs_text(r@) =~= snapshot_model(self@));
        }
        r
    }
}

} // verus!
