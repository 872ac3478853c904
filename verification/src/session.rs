//! Viewer state whose rules do not depend on floating-point arithmetic: the
//! set of loaded runs and the selection among them, the NTC model choice, the
//! visible trace groups, and per-run colours.

use vstd::prelude::*;

use crate::data::SensorRun;
use crate::parameters::field::{BMP_C, T0_BETA, T0_SH, T1_BETA, T1_SH, T2_BETA, T2_SH};
use crate::parameters::{Rgb, Rgba, MAX_LOADED_RUNS};

verus! {

/// Which provisional NTC temperature calculation should be compared with the
/// BMP180 reference channel.
#[derive(Clone, Copy, Debug, PartialEq, Eq, Structural)]
pub enum NtcModel {
    Beta,
    SteinhartHart,
    Both,
}

pub open spec fn ntc_model_label(model: NtcModel) -> Seq<char> {
    match model {
        NtcModel::Beta => "β model"@,
        NtcModel::SteinhartHart => "Steinhart–Hart"@,
        NtcModel::Both => "Both models"@,
    }
}

/// The temperature channels shown for a model: the BMP180 reference first,
/// then the model's NTC channels in channel order.
pub open spec fn temperature_fields_spec(model: NtcModel) -> Seq<usize> {
    match model {
        NtcModel::Beta => seq![BMP_C, T0_BETA, T1_BETA, T2_BETA],
        NtcModel::SteinhartHart => seq![BMP_C, T0_SH, T1_SH, T2_SH],
        NtcModel::Both => seq![BMP_C, T0_BETA, T0_SH, T1_BETA, T1_SH, T2_BETA, T2_SH],
    }
}

impl NtcModel {
    pub fn label(self) -> (label: &'static str)
        ensures
            label@ == ntc_model_label(self),
    {
        match self {
            NtcModel::Beta => "β model",
            NtcModel::SteinhartHart => "Steinhart–Hart",
            NtcModel::Both => "Both models",
        }
    }

    /// Field indices of the temperature comparison plot.
    pub fn temperature_fields(self) -> (fields: Vec<usize>)
        ensures
            fields@ == temperature_fields_spec(self),
    {
        let mut fields: Vec<usize> = Vec::new();
        fields.push(BMP_C);
        match self {
            NtcModel::Beta => {
                fields.push(T0_BETA);
                fields.push(T1_BETA);
                fields.push(T2_BETA);
            },
            NtcModel::SteinhartHart => {
                fields.push(T0_SH);
                fields.push(T1_SH);
                fields.push(T2_SH);
            },
            NtcModel::Both => {
                fields.push(T0_BETA);
                fields.push(T0_SH);
                fields.push(T1_BETA);
                fields.push(T1_SH);
                fields.push(T2_BETA);
                fields.push(T2_SH);
            },
        }
        assert(fields@ =~= temperature_fields_spec(self));
        fields
    }

    /// Field indices whose residuals against the BMP180 reference are plotted:
    /// the temperature fields without the reference itself.
    pub fn ntc_temperature_fields(self) -> (fields: Vec<usize>)
        ensures
            fields@ == temperature_fields_spec(self).filter(|f: usize| f != BMP_C),
    {
        let all = self.temperature_fields();
        let mut fields: Vec<usize> = Vec::new();
        for i in 0..all.len()
            invariant
                all@ == temperature_fields_spec(self),
                fields@ == all@.take(i as int).filter(|f: usize| f != BMP_C),
        {
            reveal(Seq::filter);
            assert(all@.take(i + 1).drop_last() =~= all@.take(i as int));
            assert(all@.take(i + 1).last() == all@[i as int]);
            if all[i] != BMP_C {
                fields.push(all[i]);
            }
        }
        assert(all@.take(all.len() as int) =~= all@);
        fields
    }
}

/// Visibility state for each stacked trace group.
#[derive(Clone, Copy, Debug, PartialEq, Eq, Structural)]
pub struct GroupVisibility {
    pub temperatures: bool,
    pub temperature_delta: bool,
    pub voltages: bool,
    pub resistances: bool,
    pub pressure: bool,
}

impl Default for GroupVisibility {
    /// Temperatures, residuals and voltages shown; resistances and pressure hidden.
    fn default() -> (groups: Self)
        ensures
            groups == (GroupVisibility {
                temperatures: true,
                temperature_delta: true,
                voltages: true,
                resistances: false,
                pressure: false,
            }),
    {
        GroupVisibility {
            temperatures: true,
            temperature_delta: true,
            voltages: true,
            resistances: false,
            pressure: false,
        }
    }
}

/// The alpha of the `n`-th loaded run's traces, repeating every four runs.
pub open spec fn run_alpha_spec(run_index: usize) -> u8 {
    let slot = run_index % 4;
    if slot == 0 {
        255
    } else if slot == 1 {
        205
    } else if slot == 2 {
        165
    } else {
        125
    }
}

/// Retain channel identity while making repeated runs visually distinguishable.
pub fn colour_for_run(base: Rgb, run_index: usize) -> (colour: Rgba)
    ensures
        colour == (Rgba { r: base.r, g: base.g, b: base.b, a: run_alpha_spec(run_index) }),
{
    let alpha: u8 = match run_index % 4 {
        0 => 255,
        1 => 205,
        2 => 165,
        _ => 125,
    };
    Rgba { r: base.r, g: base.g, b: base.b, a: alpha }
}


/// At most `MAX_LOADED_RUNS` runs, and the selection, if any, names one of them.
pub open spec fn runs_state_valid(state: (Seq<SensorRun>, Option<usize>)) -> bool {
    &&& state.0.len() <= MAX_LOADED_RUNS
    &&& state.1 matches Some(i) ==> i < state.0.len()
}

/// The largest run duration, in milliseconds, and never less than zero.
pub open spec fn max_duration_spec(runs: Seq<SensorRun>) -> int
    decreases runs.len(),
{
    if runs.len() == 0 {
        0
    } else {
        let earlier = max_duration_spec(runs.drop_last());
        let last = runs.last().duration_spec();
        if last > earlier {
            last
        } else {
            earlier
        }
    }
}

/// The name shown for the selection.
pub open spec fn selected_name_spec(state: (Seq<SensorRun>, Option<usize>)) -> Seq<char> {
    match state.1 {
        Some(i) => if i < state.0.len() {
            state.0[i as int].display_name@
        } else {
            "No run selected"@
        },
        None => "No run selected"@,
    }
}

/// The loaded runs, in load order, and which one is selected.
pub struct LoadedRuns {
    runs: Vec<SensorRun>,
    selected_run: Option<usize>,
}

impl View for LoadedRuns {
    type V = (Seq<SensorRun>, Option<usize>);

    closed spec fn view(&self) -> Self::V {
        (self.runs@, self.selected_run)
    }
}

impl LoadedRuns {
    #[verifier::type_invariant]
    spec fn valid(&self) -> bool {
        runs_state_valid((self.runs@, self.selected_run))
    }

    /// No runs and no selection.
    pub fn new() -> (loaded: Self)
        ensures
            loaded@.0.len() == 0,
            loaded@.1 is None,
            runs_state_valid(loaded@),
    {
        LoadedRuns { runs: Vec::new(), selected_run: None }
    }

    pub fn len(&self) -> (n: usize)
        ensures
            n == self@.0.len(),
            runs_state_valid(self@),
    {
        proof {
            use_type_invariant(self);
        }
        self.runs.len()
    }

    pub fn is_empty(&self) -> (empty: bool)
        ensures
            empty == (self@.0.len() == 0),
    {
        self.runs.len() == 0
    }

    /// The runs, in load order.
    pub fn runs(&self) -> (runs: &Vec<SensorRun>)
        ensures
            runs@ == self@.0,
    {
        &self.runs
    }

    /// The selected index, if any.
    pub fn selected_index(&self) -> (index: Option<usize>)
        ensures
            index == self@.1,
            index matches Some(i) ==> i < self@.0.len(),
    {
        proof {
            use_type_invariant(self);
        }
        self.selected_run
    }

    /// Whether the run limit is reached, so that no further run can be loaded.
    pub fn is_full(&self) -> (full: bool)
        ensures
            full == (self@.0.len() >= MAX_LOADED_RUNS),
    {
        self.runs.len() >= MAX_LOADED_RUNS
    }

    /// Adds a run and selects it, unless the run limit is reached, in which
    /// case nothing changes and `false` is returned.
    pub fn add_run(&mut self, run: SensorRun) -> (added: bool)
        ensures
            added == (old(self)@.0.len() < MAX_LOADED_RUNS),
            added ==> final(self)@.0 == old(self)@.0.push(run) && final(self)@.1 == Some(
                old(self)@.0.len() as usize,
            ),
            !added ==> final(self)@ == old(self)@,
            runs_state_valid(final(self)@),
    {
        proof {
            use_type_invariant(&*self);
        }
        if self.runs.len() >= MAX_LOADED_RUNS {
            return false;
        }
        self.selected_run = None;
        let mut runs: Vec<SensorRun> = Vec::new();
        std::mem::swap(&mut runs, &mut self.runs);
        runs.push(run);
        let last = runs.len() - 1;
        self.runs = runs;
        self.selected_run = Some(last);
        true
    }

    /// Selects the run at `index`, when there is one; otherwise nothing changes.
    pub fn select(&mut self, index: usize)
        ensures
            final(self)@.0 == old(self)@.0,
            index < old(self)@.0.len() ==> final(self)@.1 == Some(index),
            index >= old(self)@.0.len() ==> final(self)@.1 == old(self)@.1,
            runs_state_valid(final(self)@),
    {
        proof {
            use_type_invariant(&*self);
        }
        if index < self.runs.len() {
            self.selected_run = Some(index);
        }
    }

    /// Removes the selected run and returns it; the first remaining run, if
    /// any, becomes selected. Without a selection nothing is removed and the
    /// selection stays empty.
    pub fn remove_selected(&mut self) -> (removed: Option<SensorRun>)
        ensures
            match old(self)@.1 {
                Some(i) => {
                    &&& removed == Some(old(self)@.0[i as int])
                    &&& final(self)@.0 == old(self)@.0.remove(i as int)
                    &&& final(self)@.1 == if final(self)@.0.len() > 0 {
                        Some(0usize)
                    } else {
                        None
                    }
                },
                None => removed is None && final(self)@ == old(self)@,
            },
            runs_state_valid(final(self)@),
    {
        proof {
            use_type_invariant(&*self);
        }
        let selected = self.selected_run;
        self.selected_run = None;
        if let Some(index) = selected {
            if index < self.runs.len() {
                let mut runs: Vec<SensorRun> = Vec::new();
                std::mem::swap(&mut runs, &mut self.runs);
                let removed = runs.remove(index);
                self.runs = runs;
                self.selected_run = if self.runs.len() > 0 {
                    Some(0)
                } else {
                    None
                };
                return Some(removed);
            }
        }
        None
    }

    /// Removes every run and the selection.
    pub fn clear(&mut self)
        ensures
            final(self)@.0.len() == 0,
            final(self)@.1 is None,
            runs_state_valid(final(self)@),
    {
        proof {
            use_type_invariant(&*self);
        }
        self.selected_run = None;
        self.runs = Vec::new();
    }

    /// The selected run, if any.
    pub fn selected_run(&self) -> (run: Option<&SensorRun>)
        ensures
            match self@.1 {
                Some(i) => run == Some(&self@.0[i as int]),
                None => run is None,
            },
    {
        proof {
            use_type_invariant(self);
        }
        match self.selected_run {
            Some(index) => Some(&self.runs[index]),
            None => None,
        }
    }

    /// The selected run's name, or `No run selected`.
    pub fn selected_run_name(&self) -> (name: &str)
        ensures
            name@ == selected_name_spec(self@),
    {
        match self.selected_run {
            Some(index) => if index < self.runs.len() {
                self.runs[index].display_name.as_str()
            } else {
                "No run selected"
            },
            None => "No run selected",
        }
    }

    /// The longest run duration in milliseconds, or zero.
    pub fn maximum_duration_milliseconds(&self) -> (max: i64)
        ensures
            max == max_duration_spec(self@.0),
    {
        let mut max: i64 = 0;
        for i in 0..self.runs.len()
            invariant
                max == max_duration_spec(self.runs@.take(i as int)),
        {
            assert(self.runs@.take(i + 1).drop_last() =~= self.runs@.take(i as int));
            let duration = self.runs[i].duration_milliseconds();
            if duration > max {
                max = duration;
            }
        }
        assert(self.runs@.take(self.runs.len() as int) =~= self.runs@);
        max
    }
}


/// The residual channels are exactly the model's NTC channels: the
/// temperature channels after the leading BMP180 reference, which never
/// appears among them.
pub proof fn residual_fields_are_ntc_channels(model: NtcModel)
    ensures
        temperature_fields_spec(model)[0] == BMP_C,
        temperature_fields_spec(model).filter(|f: usize| f != BMP_C) == temperature_fields_spec(
            model,
        ).drop_first(),
        !temperature_fields_spec(model).filter(|f: usize| f != BMP_C).contains(BMP_C),
{
    let all = temperature_fields_spec(model);
    reveal_with_fuel(Seq::<_>::filter, 8);
    assert(all.filter(|f: usize| f != BMP_C) =~= all.drop_first());
    assert(!all.drop_first().contains(BMP_C)) by {
        if all.drop_first().contains(BMP_C) {
            let k = choose|k: int| 0 <= k < all.drop_first().len() && all.drop_first()[k] == BMP_C;
            assert(all[k + 1] == BMP_C);
        }
    }
}

/// The longest duration is never negative, no run lasts longer, and unless
/// it is zero some run lasts exactly that long.
pub proof fn maximum_duration_bounds(runs: Seq<SensorRun>)
    ensures
        max_duration_spec(runs) >= 0,
        forall|i: int| 0 <= i < runs.len() ==> #[trigger] runs[i].duration_spec() <= max_duration_spec(runs),
        max_duration_spec(runs) == 0 || exists|i: int|
            0 <= i < runs.len() && #[trigger] runs[i].duration_spec() == max_duration_spec(runs),
    decreases runs.len(),
{
    if runs.len() > 0 {
        let earlier = runs.drop_last();
        maximum_duration_bounds(earlier);
        assert forall|i: int| 0 <= i < runs.len() implies #[trigger] runs[i].duration_spec()
            <= max_duration_spec(runs) by {
            if i < runs.len() - 1 {
                assert(runs[i] == earlier[i]);
            }
        }
        if max_duration_spec(runs) != 0 {
            if max_duration_spec(runs) == max_duration_spec(earlier) {
                let i = choose|i: int|
                    0 <= i < earlier.len() && #[trigger] earlier[i].duration_spec()
                        == max_duration_spec(earlier);
                assert(runs[i] == earlier[i]);
            } else {
                assert(runs[runs.len() - 1].duration_spec() == max_duration_spec(runs));
            }
        }
    }
}

} // verus!
