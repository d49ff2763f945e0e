//! Name aliases between library versions: which other class names are tried
//! when a name is requested, before the cache is consulted (`early`) and when
//! nothing else gives the class (`late`).

use vstd::prelude::*;
use crate::text::{chars_of, concat, starts_with, str_eq, strings_view, vec_starts_with};

verus! {

/// Names to try: none, or in order with `Hard` (the last failure is the
/// answer when none loads) or `Soft` (the ordinary lookup follows).
pub enum Compat {
    Plain,
    Hard(Vec<String>),
    Soft(Vec<String>),
}

/// Mathematical value of a [`Compat`].
pub enum SCompat {
    Plain,
    Hard(Seq<Seq<char>>),
    Soft(Seq<Seq<char>>),
}

impl Compat {
    pub open spec fn view(&self) -> SCompat {
        match self {
            Compat::Plain => SCompat::Plain,
            Compat::Hard(v) => SCompat::Hard(strings_view(v@)),
            Compat::Soft(v) => SCompat::Soft(strings_view(v@)),
        }
    }
}

pub open spec fn opt_compat_view(o: Option<Compat>) -> Option<SCompat> {
    match o {
        Some(c) => Some(c@),
        None => None,
    }
}

/// `str::trim_start_matches` with a non-empty pattern: every leading repetition
/// of `pat` removed.
pub open spec fn trim_start_all(s: Seq<char>, pat: Seq<char>) -> Seq<char>
    decreases s.len(),
{
    if pat.len() > 0 && starts_with(s, pat) {
        trim_start_all(s.skip(pat.len() as int), pat)
    } else {
        s
    }
}

/// What follows the prefix `pat` of `s`, or nothing when `s` does not begin with it.
pub open spec fn strip_or_empty(s: Seq<char>, pat: Seq<char>) -> Seq<char> {
    if starts_with(s, pat) { s.skip(pat.len() as int) } else { Seq::empty() }
}

/// `s` with its prefix `pat` replaced by `rep` (unchanged when it does not begin
/// with `pat`).
pub open spec fn replace_prefix(s: Seq<char>, pat: Seq<char>, rep: Seq<char>) -> Seq<char> {
    if starts_with(s, pat) { rep + s.skip(pat.len() as int) } else { s }
}


fn one(a: String) -> (v: Vec<String>)
    ensures
        strings_view(v@) == seq![a@],
{
    let ghost av = a@;
    let mut v: Vec<String> = Vec::new();
    v.push(a);
    assert(strings_view(v@) =~= seq![av]);
    v
}

fn two(a: String, b: String) -> (v: Vec<String>)
    ensures
        strings_view(v@) == seq![a@, b@],
{
    let ghost av = a@;
    let ghost bv = b@;
    let mut v: Vec<String> = Vec::new();
    v.push(a);
    v.push(b);
    assert(strings_view(v@) =~= seq![av, bv]);
    v
}

fn three(a: String, b: String, c: String) -> (v: Vec<String>)
    ensures
        strings_view(v@) == seq![a@, b@, c@],
{
    let ghost av = a@;
    let ghost bv = b@;
    let ghost cv = c@;
    let mut v: Vec<String> = Vec::new();
    v.push(a);
    v.push(b);
    v.push(c);
    assert(strings_view(v@) =~= seq![av, bv, cv]);
    v
}

fn own(s: &str) -> (r: String)
    ensures
        r@ == s@,
{
    s.to_owned()
}

fn tail_from(cs: &Vec<char>, k: usize) -> (r: String)
    requires
        k <= cs@.len(),
    ensures
        r@ == cs@.skip(k as int),
{
    let r = crate::text::string_of_range(cs, k, cs.len());
    assert(cs@.subrange(k as int, cs@.len() as int) =~= cs@.skip(k as int));
    r
}

fn trim_start_all_exec(cs: &Vec<char>, pat: &str) -> (r: String)
    ensures
        r@ == trim_start_all(cs@, pat@),
{
    let pv = chars_of(pat);
    let m = pv.len();
    if m == 0 {
        return crate::text::string_of_chars(cs);
    }
    let mut k: usize = 0;
    assert(cs@.skip(0) =~= cs@);
    while m <= cs.len() - k && crate::text::range_eq(cs, k, k + m, pat)
        invariant
            k <= cs@.len(),
            m == pat@.len(),
            m > 0,
            trim_start_all(cs@.skip(k as int), pat@) == trim_start_all(cs@, pat@),
        decreases cs@.len() - k,
    {
        proof {
            let s = cs@.skip(k as int);
            assert(s.take(m as int) =~= cs@.subrange(k as int, (k + m) as int));
            assert(s.skip(m as int) =~= cs@.skip((k + m) as int));
        }
        k = k + m;
    }
    proof {
        let s = cs@.skip(k as int);
        if k + m <= cs@.len() {
            assert(s.take(m as int) =~= cs@.subrange(k as int, (k + m) as int));
        }
    }
    tail_from(cs, k)
}

fn strip_or_empty_exec(cs: &Vec<char>, pat: &str) -> (r: String)
    ensures
        r@ == strip_or_empty(cs@, pat@),
{
    if vec_starts_with(cs, pat) {
        let pv = chars_of(pat);
        tail_from(cs, pv.len())
    } else {
        String::new()
    }
}

fn replace_prefix_exec(cs: &Vec<char>, pat: &str, rep: &str) -> (r: String)
    ensures
        r@ == replace_prefix(cs@, pat@, rep@),
{
    if vec_starts_with(cs, pat) {
        let pv = chars_of(pat);
        let t = tail_from(cs, pv.len());
        concat(rep, t.as_str())
    } else {
        crate::text::string_of_chars(cs)
    }
}

/// Part of the table of [`spec_early_compat`].
pub open spec fn early_part0(name: Seq<char>) -> Option<SCompat> {
    if name == "Modelica.Electrical.Analog.Interfaces.Source"@ {
        Some(SCompat::Hard(seq!["Modelica.Electrical.Analog.Interfaces.VoltageSource"@]))
    } else if name == "Modelica.Electrical.Analog.Interfaces.TwoPlug"@ {
        Some(SCompat::Hard(seq!["Modelica.Electrical.Analog.Interfaces.TwoPin"@]))
    } else if name == "Modelica.Electrical.Analog.Interfaces.PositivePlug"@ {
        Some(SCompat::Hard(seq!["Modelica.Electrical.Analog.Interfaces.PositivePin"@]))
    } else if name == "Modelica.Electrical.Analog.Interfaces.NegativePlug"@ {
        Some(SCompat::Hard(seq!["Modelica.Electrical.Analog.Interfaces.NegativePin"@]))
    } else if name == "Modelica.Electrical.Analog.Interfaces.Plug"@ {
        Some(SCompat::Hard(seq!["Modelica.Electrical.Analog.Interfaces.Pin"@]))
    } else if name == "Modelica.Electrical.Analog.Interfaces.MemoryBase"@ {
        Some(SCompat::Soft(seq!["Modelica.Electrical.Analog.Interfaces.TwoPin"@]))
    } else if name == "Modelica.Electrical.Analog.Interfaces.DigitalInput"@ {
        Some(SCompat::Soft(seq!["Modelica.Electrical.Analog.Interfaces.BooleanInput"@]))
    } else if name == "Modelica.Magnetic.FluxTubes.Interfaces.Source"@ {
        Some(SCompat::Hard(seq!["Modelica.Magnetic.QuasiStatic.FluxTubes.Interfaces.Source"@]))
    } else if starts_with(name, "Modelica.Magnetic.FluxTubes.Interfaces.Source."@) {
        Some(SCompat::Hard(seq!["Modelica.Magnetic.QuasiStatic.FluxTubes.Interfaces.Source."@ + trim_start_all(name, "Modelica.Magnetic.FluxTubes.Interfaces.Source."@)]))
    } else if name == "Modelica.Magnetic.FluxTubes.Interfaces.RelativeSensor"@ || starts_with(name, "Modelica.Magnetic.FluxTubes.Interfaces.RelativeSensor."@) || name == "Modelica.Magnetic.FluxTubes.Interfaces.AbsoluteSensor"@ || starts_with(name, "Modelica.Magnetic.FluxTubes.Interfaces.AbsoluteSensor."@) {
        Some(SCompat::Hard(seq!["Modelica.Magnetic.QuasiStatic.FluxTubes.Interfaces."@ + strip_or_empty(name, "Modelica.Magnetic.FluxTubes.Interfaces."@)]))
    } else if name == "Modelica.Mechanics.Translational.Components.PartialFrictionWithStop"@ || starts_with(name, "Modelica.Mechanics.Translational.Components.PartialFrictionWithStop."@) {
        Some(SCompat::Hard(seq!["Modelica.Mechanics.Translational.Components.MassWithStopAndFriction.PartialFrictionWithStop"@ + strip_or_empty(name, "Modelica.Mechanics.Translational.Components.PartialFrictionWithStop"@)]))
    } else if name == "Modelica.Magnetic.FundamentalWave.Components.QuasiStaticAnalogElectroMagneticConverter"@ || starts_with(name, "Modelica.Magnetic.FundamentalWave.Components.QuasiStaticAnalogElectroMagneticConverter."@) {
        Some(SCompat::Hard(seq!["Modelica.Magnetic.QuasiStatic.FundamentalWave.Components.QuasiStaticAnalogElectroMagneticConverter"@ + trim_start_all(name, "Modelica.Magnetic.FundamentalWave.Components.QuasiStaticAnalogElectroMagneticConverter"@)]))
    } else if name == "Modelica.Fluid.Pipes.BaseClasses.QuadraticTurbulent"@ || starts_with(name, "Modelica.Fluid.Pipes.BaseClasses.QuadraticTurbulent."@) {
        Some(SCompat::Hard(seq!["Modelica.Fluid.Pipes.BaseClasses.WallFriction.QuadraticTurbulent"@ + strip_or_empty(name, "Modelica.Fluid.Pipes.BaseClasses.QuadraticTurbulent"@)]))
    } else if name == "Modelica.Fluid.Pipes.BaseClasses.WallFriction.QuadraticTurbulent.BaseModel"@ || name == "Modelica.Fluid.Pipes.BaseClasses.WallFriction.QuadraticTurbulent.BaseModelNonconstantCrossSectionArea"@ {
        Some(SCompat::Hard(seq!["Modelica.Fluid.Pipes.BaseClasses.WallFriction.PartialWallFriction"@]))
    } else {
        None
    }
}

/// Part of the table of [`spec_early_compat`].
pub open spec fn early_part1(name: Seq<char>) -> Option<SCompat> {
    if name == "Modelica.Electrical.Machines.Utilities.PartialControlledDCPM"@ {
        Some(SCompat::Hard(seq!["Modelica.Electrical.Machines.Examples.ControlledDCDrives.Utilities.PartialControlledDCPM"@]))
    } else if name == "Modelica.Electrical.Machines.Utilities.LimitedPI"@ {
        Some(SCompat::Hard(seq!["Modelica.Electrical.Machines.Examples.ControlledDCDrives.Utilities.LimitedPI"@]))
    } else if name == "Magnetic"@ {
        Some(SCompat::Soft(seq!["Modelica.Magnetic"@]))
    } else if (starts_with(name, "Magnetic."@) && !starts_with(name, "Modelica."@)) {
        Some(SCompat::Soft(seq!["Modelica."@ + name]))
    } else if name == "FluidHeatFlow"@ || name == "Interfaces.FluidHeatFlow"@ {
        Some(SCompat::Soft(seq!["Modelica.Thermal.FluidHeatFlow.Interfaces.FluidHeatFlow"@]))
    } else if starts_with(name, "FluidHeatFlow."@) {
        Some(SCompat::Soft(seq!["Modelica.Thermal.FluidHeatFlow."@ + trim_start_all(name, "FluidHeatFlow."@)]))
    } else if name == "semiLinear"@ {
        Some(SCompat::Soft(seq!["Modelica.Thermal.FluidHeatFlow.Utilities.semiLinear"@, "Modelica.Utilities.Math.semiLinear"@, "Modelica.Fluid.Utilities.semiLinear"@]))
    } else if name == "arg"@ {
        Some(SCompat::Soft(seq!["Modelica.ComplexMath.arg"@]))
    } else if name == "distribution"@ {
        Some(SCompat::Soft(seq!["Modelica.Blocks.Noise.Interfaces.distribution"@, "Modelica.Math.Distributions.distribution"@]))
    } else if name == "AxisControlBus"@ {
        Some(SCompat::Soft(seq!["Modelica.Mechanics.MultiBody.Examples.Systems.RobotR3.Utilities.AxisControlBus"@]))
    } else if name == "ControlBus"@ {
        Some(SCompat::Soft(seq!["Modelica.Mechanics.MultiBody.Examples.Systems.RobotR3.Utilities.ControlBus"@]))
    } else if name == "Types"@ {
        Some(SCompat::Soft(seq!["Modelica.Mechanics.MultiBody.Types"@]))
    } else if starts_with(name, "Types."@) {
        Some(SCompat::Soft(seq!["Modelica.Mechanics.MultiBody."@ + name]))
    } else if name == "Frames"@ || starts_with(name, "Frames."@) {
        Some(SCompat::Soft(seq!["Modelica.Mechanics.MultiBody."@ + name]))
    } else {
        None
    }
}

/// Part of the table of [`spec_early_compat`].
pub open spec fn early_part2(name: Seq<char>) -> Option<SCompat> {
    if name == "Parts"@ || starts_with(name, "Parts."@) {
        Some(SCompat::Soft(seq!["Modelica.Mechanics.MultiBody."@ + name]))
    } else if name == "Joints"@ || starts_with(name, "Joints."@) {
        Some(SCompat::Soft(seq!["Modelica.Mechanics.MultiBody."@ + name]))
    } else if name == "Forces"@ || starts_with(name, "Forces."@) {
        Some(SCompat::Soft(seq!["Modelica.Mechanics.MultiBody."@ + name]))
    } else if name == "FlowModel"@ {
        Some(SCompat::Soft(seq!["Modelica.Fluid.Pipes.BaseClasses.FlowModels.DetailedPipeFlow"@]))
    } else if starts_with(name, "FlowModel."@) {
        Some(SCompat::Soft(seq!["Modelica.Fluid.Pipes.BaseClasses.FlowModels.DetailedPipeFlow"@ + trim_start_all(name, "FlowModel"@)]))
    } else if name == "oneTrue"@ {
        Some(SCompat::Soft(seq!["Modelica.Electrical.Batteries.Utilities.oneTrue"@]))
    } else if name == "isPowerOf2"@ {
        Some(SCompat::Soft(seq!["Modelica.Electrical.Polyphase.Functions.isPowerOf2"@, "Modelica.Electrical.QuasiStatic.Polyphase.Functions.isPowerOf2"@]))
    } else if name == "numberOfSymmetricBaseSystems"@ {
        Some(SCompat::Soft(seq!["Modelica.Electrical.Polyphase.Functions.numberOfSymmetricBaseSystems"@, "Modelica.Electrical.QuasiStatic.Polyphase.Functions.numberOfSymmetricBaseSystems"@]))
    } else if name == "factorY2DC"@ {
        Some(SCompat::Soft(seq!["Modelica.Electrical.Polyphase.Functions.factorY2DC"@, "Modelica.Electrical.QuasiStatic.Polyphase.Functions.factorY2DC"@]))
    } else if name == "exlin"@ {
        Some(SCompat::Soft(seq!["Modelica.Electrical.Analog.Semiconductors.exlin"@]))
    } else if name == "exlin2"@ {
        Some(SCompat::Soft(seq!["Modelica.Electrical.Analog.Semiconductors.exlin2"@]))
    } else if name == "valveCharacteristic"@ {
        Some(SCompat::Soft(seq!["Modelica.Fluid.Valves.BaseClasses.ValveCharacteristics.linear"@]))
    } else if name == "regRoot"@ || name == "regRoot2"@ || name == "regSquare2"@ || name == "regFun3"@ || name == "regStep"@ {
        Some(SCompat::Soft(seq!["Modelica.Fluid.Utilities."@ + name, "Modelica.Utilities.Math."@ + name]))
    } else if starts_with(name, "from_"@) {
        Some(SCompat::Soft(seq!["Modelica.Blocks.Math.UnitConversions.From_"@ + trim_start_all(name, "from_"@)]))
    } else {
        None
    }
}

/// Part of the table of [`spec_early_compat`].
pub open spec fn early_part3(name: Seq<char>) -> Option<SCompat> {
    if starts_with(name, "to_"@) {
        Some(SCompat::Soft(seq!["Modelica.Blocks.Math.UnitConversions.To_"@ + trim_start_all(name, "to_"@)]))
    } else if name == "Material"@ {
        Some(SCompat::Soft(seq!["Modelica.Magnetic.FluxTubes.Material"@]))
    } else if starts_with(name, "Material."@) {
        Some(SCompat::Soft(seq!["Modelica.Magnetic.FluxTubes.Material."@ + trim_start_all(name, "Material."@)]))
    } else if name == "Shapes"@ {
        Some(SCompat::Soft(seq!["Modelica.Magnetic.FluxTubes.Shapes"@]))
    } else if starts_with(name, "Shapes."@) {
        Some(SCompat::Soft(seq!["Modelica.Magnetic.FluxTubes.Shapes."@ + trim_start_all(name, "Shapes."@)]))
    } else if name == "HeatPort_a"@ || name == "HeatPort_b"@ {
        Some(SCompat::Soft(seq!["Modelica.Thermal.HeatTransfer.Interfaces."@ + name]))
    } else if starts_with(name, "HeatPort_a."@) || starts_with(name, "HeatPort_b."@) {
        Some(SCompat::Soft(seq!["Modelica.Thermal.HeatTransfer.Interfaces."@ + name]))
    } else if name == "Medium"@ {
        Some(SCompat::Soft(seq!["Modelica.Media.Interfaces.PartialMedium"@]))
    } else if starts_with(name, "Medium."@) {
        Some(SCompat::Soft(seq!["Modelica.Media.Interfaces.PartialMedium."@ + trim_start_all(name, "Medium."@)]))
    } else if name == "Sampler"@ || starts_with(name, "Sampler."@) {
        Some(SCompat::Soft(seq!["Modelica.Clocked.RealSignals."@ + name, "Modelica.Clocked.BooleanSignals."@ + name, "Modelica.Clocked.IntegerSignals."@ + name]))
    } else if name == "ClockSignals"@ || starts_with(name, "ClockSignals."@) {
        Some(SCompat::Hard(seq!["Modelica.Clocked."@ + name]))
    } else if name == "BooleanSignals"@ || starts_with(name, "BooleanSignals."@) {
        Some(SCompat::Hard(seq!["Modelica.Clocked."@ + name]))
    } else if name == "RealSignals"@ || starts_with(name, "RealSignals."@) {
        Some(SCompat::Hard(seq!["Modelica.Clocked."@ + name]))
    } else if name == "IntegerSignals"@ || starts_with(name, "IntegerSignals."@) {
        Some(SCompat::Hard(seq!["Modelica.Clocked."@ + name]))
    } else {
        None
    }
}

/// Part of the table of [`spec_late_compat`].
pub open spec fn late_part0(name: Seq<char>) -> Option<SCompat> {
    if (name == "Modelica.Blocks.SymmetricalComponents"@ || starts_with(name, "Modelica.Blocks.SymmetricalComponents."@)) && replace_prefix(name, "Modelica.Blocks.SymmetricalComponents"@, "Modelica.Electrical.QuasiStatic.Polyphase.Blocks.SymmetricalComponents"@) != name {
        Some(SCompat::Soft(seq![replace_prefix(name, "Modelica.Blocks.SymmetricalComponents"@, "Modelica.Electrical.QuasiStatic.Polyphase.Blocks.SymmetricalComponents"@)]))
    } else if (name == "Modelica.Electrical.Polyphase.Blocks.SymmetricalComponents"@ || starts_with(name, "Modelica.Electrical.Polyphase.Blocks.SymmetricalComponents."@)) && replace_prefix(name, "Modelica.Electrical.Polyphase.Blocks"@, "Modelica.Electrical.QuasiStatic.Polyphase.Blocks"@) != name {
        Some(SCompat::Soft(seq![replace_prefix(name, "Modelica.Electrical.Polyphase.Blocks"@, "Modelica.Electrical.QuasiStatic.Polyphase.Blocks"@)]))
    } else if (name == "Modelica.Magnetic.FundamentalWave.Utilities"@ || starts_with(name, "Modelica.Magnetic.FundamentalWave.Utilities."@)) && replace_prefix(name, "Modelica.Magnetic.FundamentalWave.Utilities"@, "Modelica.Magnetic.QuasiStatic.FundamentalWave.Utilities"@) != name {
        Some(SCompat::Soft(seq![replace_prefix(name, "Modelica.Magnetic.FundamentalWave.Utilities"@, "Modelica.Magnetic.QuasiStatic.FundamentalWave.Utilities"@)]))
    } else if (name == "Modelica.Magnetic.FundamentalWave.Losses"@ || starts_with(name, "Modelica.Magnetic.FundamentalWave.Losses."@)) && replace_prefix(name, "Modelica.Magnetic.FundamentalWave.Losses"@, "Modelica.Magnetic.QuasiStatic.FundamentalWave.Losses"@) != name {
        Some(SCompat::Soft(seq![replace_prefix(name, "Modelica.Magnetic.FundamentalWave.Losses"@, "Modelica.Magnetic.QuasiStatic.FundamentalWave.Losses"@)]))
    } else if name == "Modelica.Fluid.Pipes.BaseClasses.PartialValve"@ {
        Some(SCompat::Soft(seq!["Modelica.Fluid.Valves.BaseClasses.PartialValve"@]))
    } else if (name == "FluidHeatFlow"@ || name == "Interfaces.FluidHeatFlow"@) && "Modelica.Thermal.FluidHeatFlow.Interfaces.FluidHeatFlow"@ != name {
        Some(SCompat::Soft(seq!["Modelica.Thermal.FluidHeatFlow.Interfaces.FluidHeatFlow"@]))
    } else if (starts_with(name, "FluidHeatFlow."@)) && "Modelica.Thermal.FluidHeatFlow."@ + trim_start_all(name, "FluidHeatFlow."@) != name {
        Some(SCompat::Soft(seq!["Modelica.Thermal.FluidHeatFlow."@ + trim_start_all(name, "FluidHeatFlow."@)]))
    } else if name == "semiLinear"@ {
        Some(SCompat::Soft(seq!["Modelica.Thermal.FluidHeatFlow.Utilities.semiLinear"@, "Modelica.Utilities.Math.semiLinear"@, "Modelica.Fluid.Utilities.semiLinear"@]))
    } else if name == "arg"@ {
        Some(SCompat::Soft(seq!["Modelica.ComplexMath.arg"@]))
    } else if name == "distribution"@ {
        Some(SCompat::Soft(seq!["Modelica.Blocks.Noise.Interfaces.distribution"@, "Modelica.Math.Distributions.distribution"@]))
    } else if name == "oneTrue"@ {
        Some(SCompat::Soft(seq!["Modelica.Electrical.Batteries.Utilities.oneTrue"@]))
    } else {
        None
    }
}

/// Part of the table of [`spec_late_compat`].
pub open spec fn late_part1(name: Seq<char>) -> Option<SCompat> {
    if name == "isPowerOf2"@ {
        Some(SCompat::Soft(seq!["Modelica.Electrical.Polyphase.Functions.isPowerOf2"@, "Modelica.Electrical.QuasiStatic.Polyphase.Functions.isPowerOf2"@]))
    } else if name == "numberOfSymmetricBaseSystems"@ {
        Some(SCompat::Soft(seq!["Modelica.Electrical.Polyphase.Functions.numberOfSymmetricBaseSystems"@, "Modelica.Electrical.QuasiStatic.Polyphase.Functions.numberOfSymmetricBaseSystems"@]))
    } else if name == "factorY2DC"@ {
        Some(SCompat::Soft(seq!["Modelica.Electrical.Polyphase.Functions.factorY2DC"@, "Modelica.Electrical.QuasiStatic.Polyphase.Functions.factorY2DC"@]))
    } else if name == "exlin"@ {
        Some(SCompat::Soft(seq!["Modelica.Electrical.Analog.Semiconductors.exlin"@]))
    } else if name == "exlin2"@ {
        Some(SCompat::Soft(seq!["Modelica.Electrical.Analog.Semiconductors.exlin2"@]))
    } else if name == "valveCharacteristic"@ {
        Some(SCompat::Soft(seq!["Modelica.Fluid.Valves.BaseClasses.ValveCharacteristics.linear"@]))
    } else if name == "regRoot"@ || name == "regRoot2"@ || name == "regSquare2"@ || name == "regFun3"@ || name == "regStep"@ {
        Some(SCompat::Soft(seq!["Modelica.Fluid.Utilities."@ + name, "Modelica.Utilities.Math."@ + name]))
    } else if starts_with(name, "from_"@) {
        Some(SCompat::Soft(seq!["Modelica.Blocks.Math.UnitConversions.From_"@ + trim_start_all(name, "from_"@)]))
    } else if starts_with(name, "to_"@) {
        Some(SCompat::Soft(seq!["Modelica.Blocks.Math.UnitConversions.To_"@ + trim_start_all(name, "to_"@)]))
    } else if (name == "Material"@) && "Modelica.Magnetic.FluxTubes.Material"@ != name {
        Some(SCompat::Soft(seq!["Modelica.Magnetic.FluxTubes.Material"@]))
    } else if (starts_with(name, "Material."@)) && "Modelica.Magnetic.FluxTubes.Material."@ + trim_start_all(name, "Material."@) != name {
        Some(SCompat::Soft(seq!["Modelica.Magnetic.FluxTubes.Material."@ + trim_start_all(name, "Material."@)]))
    } else {
        None
    }
}

/// The names tried, in order, before the cache is consulted for `name`;
/// `Hard` gives the last error when none loads, `Soft` falls back to the
/// ordinary lookup.
pub open spec fn spec_early_compat(name: Seq<char>) -> SCompat {
    match early_part0(name) {
        Some(c) => c,
        None => match early_part1(name) {
        Some(c) => c,
        None => match early_part2(name) {
        Some(c) => c,
        None => match early_part3(name) {
        Some(c) => c,
        None => SCompat::Plain,
    },
    },
    },
    }
}

/// The names tried, in order, when neither a file nor the parent class gives `name`.
pub open spec fn spec_late_compat(name: Seq<char>) -> SCompat {
    match late_part0(name) {
        Some(c) => c,
        None => match late_part1(name) {
        Some(c) => c,
        None => SCompat::Plain,
    },
    }
}

fn early_part0_exec(name: &str, cs: &Vec<char>) -> (r: Option<Compat>)
    requires
        cs@ == name@,
    ensures
        opt_compat_view(r) == early_part0(name@),
{
    if str_eq(name, "Modelica.Electrical.Analog.Interfaces.Source") {
        return Some(Compat::Hard(one(own("Modelica.Electrical.Analog.Interfaces.VoltageSource"))));
    }
    if str_eq(name, "Modelica.Electrical.Analog.Interfaces.TwoPlug") {
        return Some(Compat::Hard(one(own("Modelica.Electrical.Analog.Interfaces.TwoPin"))));
    }
    if str_eq(name, "Modelica.Electrical.Analog.Interfaces.PositivePlug") {
        return Some(Compat::Hard(one(own("Modelica.Electrical.Analog.Interfaces.PositivePin"))));
    }
    if str_eq(name, "Modelica.Electrical.Analog.Interfaces.NegativePlug") {
        return Some(Compat::Hard(one(own("Modelica.Electrical.Analog.Interfaces.NegativePin"))));
    }
    if str_eq(name, "Modelica.Electrical.Analog.Interfaces.Plug") {
        return Some(Compat::Hard(one(own("Modelica.Electrical.Analog.Interfaces.Pin"))));
    }
    if str_eq(name, "Modelica.Electrical.Analog.Interfaces.MemoryBase") {
        return Some(Compat::Soft(one(own("Modelica.Electrical.Analog.Interfaces.TwoPin"))));
    }
    if str_eq(name, "Modelica.Electrical.Analog.Interfaces.DigitalInput") {
        return Some(Compat::Soft(one(own("Modelica.Electrical.Analog.Interfaces.BooleanInput"))));
    }
    if str_eq(name, "Modelica.Magnetic.FluxTubes.Interfaces.Source") {
        return Some(Compat::Hard(one(own("Modelica.Magnetic.QuasiStatic.FluxTubes.Interfaces.Source"))));
    }
    if vec_starts_with(&cs, "Modelica.Magnetic.FluxTubes.Interfaces.Source.") {
        return Some(Compat::Hard(one(concat("Modelica.Magnetic.QuasiStatic.FluxTubes.Interfaces.Source.", trim_start_all_exec(&cs, "Modelica.Magnetic.FluxTubes.Interfaces.Source.").as_str()))));
    }
    if str_eq(name, "Modelica.Magnetic.FluxTubes.Interfaces.RelativeSensor") || vec_starts_with(&cs, "Modelica.Magnetic.FluxTubes.Interfaces.RelativeSensor.") || str_eq(name, "Modelica.Magnetic.FluxTubes.Interfaces.AbsoluteSensor") || vec_starts_with(&cs, "Modelica.Magnetic.FluxTubes.Interfaces.AbsoluteSensor.") {
        return Some(Compat::Hard(one(concat("Modelica.Magnetic.QuasiStatic.FluxTubes.Interfaces.", strip_or_empty_exec(&cs, "Modelica.Magnetic.FluxTubes.Interfaces.").as_str()))));
    }
    if str_eq(name, "Modelica.Mechanics.Translational.Components.PartialFrictionWithStop") || vec_starts_with(&cs, "Modelica.Mechanics.Translational.Components.PartialFrictionWithStop.") {
        return Some(Compat::Hard(one(concat("Modelica.Mechanics.Translational.Components.MassWithStopAndFriction.PartialFrictionWithStop", strip_or_empty_exec(&cs, "Modelica.Mechanics.Translational.Components.PartialFrictionWithStop").as_str()))));
    }
    if str_eq(name, "Modelica.Magnetic.FundamentalWave.Components.QuasiStaticAnalogElectroMagneticConverter") || vec_starts_with(&cs, "Modelica.Magnetic.FundamentalWave.Components.QuasiStaticAnalogElectroMagneticConverter.") {
        return Some(Compat::Hard(one(concat("Modelica.Magnetic.QuasiStatic.FundamentalWave.Components.QuasiStaticAnalogElectroMagneticConverter", trim_start_all_exec(&cs, "Modelica.Magnetic.FundamentalWave.Components.QuasiStaticAnalogElectroMagneticConverter").as_str()))));
    }
    if str_eq(name, "Modelica.Fluid.Pipes.BaseClasses.QuadraticTurbulent") || vec_starts_with(&cs, "Modelica.Fluid.Pipes.BaseClasses.QuadraticTurbulent.") {
        return Some(Compat::Hard(one(concat("Modelica.Fluid.Pipes.BaseClasses.WallFriction.QuadraticTurbulent", strip_or_empty_exec(&cs, "Modelica.Fluid.Pipes.BaseClasses.QuadraticTurbulent").as_str()))));
    }
    if str_eq(name, "Modelica.Fluid.Pipes.BaseClasses.WallFriction.QuadraticTurbulent.BaseModel") || str_eq(name, "Modelica.Fluid.Pipes.BaseClasses.WallFriction.QuadraticTurbulent.BaseModelNonconstantCrossSectionArea") {
        return Some(Compat::Hard(one(own("Modelica.Fluid.Pipes.BaseClasses.WallFriction.PartialWallFriction"))));
    }
    None
}

fn early_part1_exec(name: &str, cs: &Vec<char>) -> (r: Option<Compat>)
    requires
        cs@ == name@,
    ensures
        opt_compat_view(r) == early_part1(name@),
{
    if str_eq(name, "Modelica.Electrical.Machines.Utilities.PartialControlledDCPM") {
        return Some(Compat::Hard(one(own("Modelica.Electrical.Machines.Examples.ControlledDCDrives.Utilities.PartialControlledDCPM"))));
    }
    if str_eq(name, "Modelica.Electrical.Machines.Utilities.LimitedPI") {
        return Some(Compat::Hard(one(own("Modelica.Electrical.Machines.Examples.ControlledDCDrives.Utilities.LimitedPI"))));
    }
    if str_eq(name, "Magnetic") {
        return Some(Compat::Soft(one(own("Modelica.Magnetic"))));
    }
    if (vec_starts_with(&cs, "Magnetic.") && !vec_starts_with(&cs, "Modelica.")) {
        return Some(Compat::Soft(one(concat("Modelica.", name))));
    }
    if str_eq(name, "FluidHeatFlow") || str_eq(name, "Interfaces.FluidHeatFlow") {
        return Some(Compat::Soft(one(own("Modelica.Thermal.FluidHeatFlow.Interfaces.FluidHeatFlow"))));
    }
    if vec_starts_with(&cs, "FluidHeatFlow.") {
        return Some(Compat::Soft(one(concat("Modelica.Thermal.FluidHeatFlow.", trim_start_all_exec(&cs, "FluidHeatFlow.").as_str()))));
    }
    if str_eq(name, "semiLinear") {
        return Some(Compat::Soft(three(own("Modelica.Thermal.FluidHeatFlow.Utilities.semiLinear"), own("Modelica.Utilities.Math.semiLinear"), own("Modelica.Fluid.Utilities.semiLinear"))));
    }
    if str_eq(name, "arg") {
        return Some(Compat::Soft(one(own("Modelica.ComplexMath.arg"))));
    }
    if str_eq(name, "distribution") {
        return Some(Compat::Soft(two(own("Modelica.Blocks.Noise.Interfaces.distribution"), own("Modelica.Math.Distributions.distribution"))));
    }
    if str_eq(name, "AxisControlBus") {
        return Some(Compat::Soft(one(own("Modelica.Mechanics.MultiBody.Examples.Systems.RobotR3.Utilities.AxisControlBus"))));
    }
    if str_eq(name, "ControlBus") {
        return Some(Compat::Soft(one(own("Modelica.Mechanics.MultiBody.Examples.Systems.RobotR3.Utilities.ControlBus"))));
    }
    if str_eq(name, "Types") {
        return Some(Compat::Soft(one(own("Modelica.Mechanics.MultiBody.Types"))));
    }
    if vec_starts_with(&cs, "Types.") {
        return Some(Compat::Soft(one(concat("Modelica.Mechanics.MultiBody.", name))));
    }
    if str_eq(name, "Frames") || vec_starts_with(&cs, "Frames.") {
        return Some(Compat::Soft(one(concat("Modelica.Mechanics.MultiBody.", name))));
    }
    None
}

fn early_part2_exec(name: &str, cs: &Vec<char>) -> (r: Option<Compat>)
    requires
        cs@ == name@,
    ensures
        opt_compat_view(r) == early_part2(name@),
{
    if str_eq(name, "Parts") || vec_starts_with(&cs, "Parts.") {
        return Some(Compat::Soft(one(concat("Modelica.Mechanics.MultiBody.", name))));
    }
    if str_eq(name, "Joints") || vec_starts_with(&cs, "Joints.") {
        return Some(Compat::Soft(one(concat("Modelica.Mechanics.MultiBody.", name))));
    }
    if str_eq(name, "Forces") || vec_starts_with(&cs, "Forces.") {
        return Some(Compat::Soft(one(concat("Modelica.Mechanics.MultiBody.", name))));
    }
    if str_eq(name, "FlowModel") {
        return Some(Compat::Soft(one(own("Modelica.Fluid.Pipes.BaseClasses.FlowModels.DetailedPipeFlow"))));
    }
    if vec_starts_with(&cs, "FlowModel.") {
        return Some(Compat::Soft(one(concat("Modelica.Fluid.Pipes.BaseClasses.FlowModels.DetailedPipeFlow", trim_start_all_exec(&cs, "FlowModel").as_str()))));
    }
    if str_eq(name, "oneTrue") {
        return Some(Compat::Soft(one(own("Modelica.Electrical.Batteries.Utilities.oneTrue"))));
    }
    if str_eq(name, "isPowerOf2") {
        return Some(Compat::Soft(two(own("Modelica.Electrical.Polyphase.Functions.isPowerOf2"), own("Modelica.Electrical.QuasiStatic.Polyphase.Functions.isPowerOf2"))));
    }
    if str_eq(name, "numberOfSymmetricBaseSystems") {
        return Some(Compat::Soft(two(own("Modelica.Electrical.Polyphase.Functions.numberOfSymmetricBaseSystems"), own("Modelica.Electrical.QuasiStatic.Polyphase.Functions.numberOfSymmetricBaseSystems"))));
    }
    if str_eq(name, "factorY2DC") {
        return Some(Compat::Soft(two(own("Modelica.Electrical.Polyphase.Functions.factorY2DC"), own("Modelica.Electrical.QuasiStatic.Polyphase.Functions.factorY2DC"))));
    }
    if str_eq(name, "exlin") {
        return Some(Compat::Soft(one(own("Modelica.Electrical.Analog.Semiconductors.exlin"))));
    }
    if str_eq(name, "exlin2") {
        return Some(Compat::Soft(one(own("Modelica.Electrical.Analog.Semiconductors.exlin2"))));
    }
    if str_eq(name, "valveCharacteristic") {
        return Some(Compat::Soft(one(own("Modelica.Fluid.Valves.BaseClasses.ValveCharacteristics.linear"))));
    }
    if str_eq(name, "regRoot") || str_eq(name, "regRoot2") || str_eq(name, "regSquare2") || str_eq(name, "regFun3") || str_eq(name, "regStep") {
        return Some(Compat::Soft(two(concat("Modelica.Fluid.Utilities.", name), concat("Modelica.Utilities.Math.", name))));
    }
    if vec_starts_with(&cs, "from_") {
        return Some(Compat::Soft(one(concat("Modelica.Blocks.Math.UnitConversions.From_", trim_start_all_exec(&cs, "from_").as_str()))));
    }
    None
}

fn early_part3_exec(name: &str, cs: &Vec<char>) -> (r: Option<Compat>)
    requires
        cs@ == name@,
    ensures
        opt_compat_view(r) == early_part3(name@),
{
    if vec_starts_with(&cs, "to_") {
        return Some(Compat::Soft(one(concat("Modelica.Blocks.Math.UnitConversions.To_", trim_start_all_exec(&cs, "to_").as_str()))));
    }
    if str_eq(name, "Material") {
        return Some(Compat::Soft(one(own("Modelica.Magnetic.FluxTubes.Material"))));
    }
    if vec_starts_with(&cs, "Material.") {
        return Some(Compat::Soft(one(concat("Modelica.Magnetic.FluxTubes.Material.", trim_start_all_exec(&cs, "Material.").as_str()))));
    }
    if str_eq(name, "Shapes") {
        return Some(Compat::Soft(one(own("Modelica.Magnetic.FluxTubes.Shapes"))));
    }
    if vec_starts_with(&cs, "Shapes.") {
        return Some(Compat::Soft(one(concat("Modelica.Magnetic.FluxTubes.Shapes.", trim_start_all_exec(&cs, "Shapes.").as_str()))));
    }
    if str_eq(name, "HeatPort_a") || str_eq(name, "HeatPort_b") {
        return Some(Compat::Soft(one(concat("Modelica.Thermal.HeatTransfer.Interfaces.", name))));
    }
    if vec_starts_with(&cs, "HeatPort_a.") || vec_starts_with(&cs, "HeatPort_b.") {
        return Some(Compat::Soft(one(concat("Modelica.Thermal.HeatTransfer.Interfaces.", name))));
    }
    if str_eq(name, "Medium") {
        return Some(Compat::Soft(one(own("Modelica.Media.Interfaces.PartialMedium"))));
    }
    if vec_starts_with(&cs, "Medium.") {
        return Some(Compat::Soft(one(concat("Modelica.Media.Interfaces.PartialMedium.", trim_start_all_exec(&cs, "Medium.").as_str()))));
    }
    if str_eq(name, "Sampler") || vec_starts_with(&cs, "Sampler.") {
        return Some(Compat::Soft(three(concat("Modelica.Clocked.RealSignals.", name), concat("Modelica.Clocked.BooleanSignals.", name), concat("Modelica.Clocked.IntegerSignals.", name))));
    }
    if str_eq(name, "ClockSignals") || vec_starts_with(&cs, "ClockSignals.") {
        return Some(Compat::Hard(one(concat("Modelica.Clocked.", name))));
    }
    if str_eq(name, "BooleanSignals") || vec_starts_with(&cs, "BooleanSignals.") {
        return Some(Compat::Hard(one(concat("Modelica.Clocked.", name))));
    }
    if str_eq(name, "RealSignals") || vec_starts_with(&cs, "RealSignals.") {
        return Some(Compat::Hard(one(concat("Modelica.Clocked.", name))));
    }
    if str_eq(name, "IntegerSignals") || vec_starts_with(&cs, "IntegerSignals.") {
        return Some(Compat::Hard(one(concat("Modelica.Clocked.", name))));
    }
    None
}

fn late_part0_exec(name: &str, cs: &Vec<char>) -> (r: Option<Compat>)
    requires
        cs@ == name@,
    ensures
        opt_compat_view(r) == late_part0(name@),
{
    if str_eq(name, "Modelica.Blocks.SymmetricalComponents") || vec_starts_with(&cs, "Modelica.Blocks.SymmetricalComponents.") {
        let alt0 = own(replace_prefix_exec(&cs, "Modelica.Blocks.SymmetricalComponents", "Modelica.Electrical.QuasiStatic.Polyphase.Blocks.SymmetricalComponents").as_str());
        if !str_eq(alt0.as_str(), name) {
            return Some(Compat::Soft(one(alt0)));
        }
    }
    if str_eq(name, "Modelica.Electrical.Polyphase.Blocks.SymmetricalComponents") || vec_starts_with(&cs, "Modelica.Electrical.Polyphase.Blocks.SymmetricalComponents.") {
        let alt0 = own(replace_prefix_exec(&cs, "Modelica.Electrical.Polyphase.Blocks", "Modelica.Electrical.QuasiStatic.Polyphase.Blocks").as_str());
        if !str_eq(alt0.as_str(), name) {
            return Some(Compat::Soft(one(alt0)));
        }
    }
    if str_eq(name, "Modelica.Magnetic.FundamentalWave.Utilities") || vec_starts_with(&cs, "Modelica.Magnetic.FundamentalWave.Utilities.") {
        let alt0 = own(replace_prefix_exec(&cs, "Modelica.Magnetic.FundamentalWave.Utilities", "Modelica.Magnetic.QuasiStatic.FundamentalWave.Utilities").as_str());
        if !str_eq(alt0.as_str(), name) {
            return Some(Compat::Soft(one(alt0)));
        }
    }
    if str_eq(name, "Modelica.Magnetic.FundamentalWave.Losses") || vec_starts_with(&cs, "Modelica.Magnetic.FundamentalWave.Losses.") {
        let alt0 = own(replace_prefix_exec(&cs, "Modelica.Magnetic.FundamentalWave.Losses", "Modelica.Magnetic.QuasiStatic.FundamentalWave.Losses").as_str());
        if !str_eq(alt0.as_str(), name) {
            return Some(Compat::Soft(one(alt0)));
        }
    }
    if str_eq(name, "Modelica.Fluid.Pipes.BaseClasses.PartialValve") {
        return Some(Compat::Soft(one(own("Modelica.Fluid.Valves.BaseClasses.PartialValve"))));
    }
    if str_eq(name, "FluidHeatFlow") || str_eq(name, "Interfaces.FluidHeatFlow") {
        let alt0 = own("Modelica.Thermal.FluidHeatFlow.Interfaces.FluidHeatFlow");
        if !str_eq(alt0.as_str(), name) {
            return Some(Compat::Soft(one(alt0)));
        }
    }
    if vec_starts_with(&cs, "FluidHeatFlow.") {
        let alt0 = concat("Modelica.Thermal.FluidHeatFlow.", trim_start_all_exec(&cs, "FluidHeatFlow.").as_str());
        if !str_eq(alt0.as_str(), name) {
            return Some(Compat::Soft(one(alt0)));
        }
    }
    if str_eq(name, "semiLinear") {
        return Some(Compat::Soft(three(own("Modelica.Thermal.FluidHeatFlow.Utilities.semiLinear"), own("Modelica.Utilities.Math.semiLinear"), own("Modelica.Fluid.Utilities.semiLinear"))));
    }
    if str_eq(name, "arg") {
        return Some(Compat::Soft(one(own("Modelica.ComplexMath.arg"))));
    }
    if str_eq(name, "distribution") {
        return Some(Compat::Soft(two(own("Modelica.Blocks.Noise.Interfaces.distribution"), own("Modelica.Math.Distributions.distribution"))));
    }
    if str_eq(name, "oneTrue") {
        return Some(Compat::Soft(one(own("Modelica.Electrical.Batteries.Utilities.oneTrue"))));
    }
    None
}

fn late_part1_exec(name: &str, cs: &Vec<char>) -> (r: Option<Compat>)
    requires
        cs@ == name@,
    ensures
        opt_compat_view(r) == late_part1(name@),
{
    if str_eq(name, "isPowerOf2") {
        return Some(Compat::Soft(two(own("Modelica.Electrical.Polyphase.Functions.isPowerOf2"), own("Modelica.Electrical.QuasiStatic.Polyphase.Functions.isPowerOf2"))));
    }
    if str_eq(name, "numberOfSymmetricBaseSystems") {
        return Some(Compat::Soft(two(own("Modelica.Electrical.Polyphase.Functions.numberOfSymmetricBaseSystems"), own("Modelica.Electrical.QuasiStatic.Polyphase.Functions.numberOfSymmetricBaseSystems"))));
    }
    if str_eq(name, "factorY2DC") {
        return Some(Compat::Soft(two(own("Modelica.Electrical.Polyphase.Functions.factorY2DC"), own("Modelica.Electrical.QuasiStatic.Polyphase.Functions.factorY2DC"))));
    }
    if str_eq(name, "exlin") {
        return Some(Compat::Soft(one(own("Modelica.Electrical.Analog.Semiconductors.exlin"))));
    }
    if str_eq(name, "exlin2") {
        return Some(Compat::Soft(one(own("Modelica.Electrical.Analog.Semiconductors.exlin2"))));
    }
    if str_eq(name, "valveCharacteristic") {
        return Some(Compat::Soft(one(own("Modelica.Fluid.Valves.BaseClasses.ValveCharacteristics.linear"))));
    }
    if str_eq(name, "regRoot") || str_eq(name, "regRoot2") || str_eq(name, "regSquare2") || str_eq(name, "regFun3") || str_eq(name, "regStep") {
        return Some(Compat::Soft(two(concat("Modelica.Fluid.Utilities.", name), concat("Modelica.Utilities.Math.", name))));
    }
    if vec_starts_with(&cs, "from_") {
        return Some(Compat::Soft(one(concat("Modelica.Blocks.Math.UnitConversions.From_", trim_start_all_exec(&cs, "from_").as_str()))));
    }
    if vec_starts_with(&cs, "to_") {
        return Some(Compat::Soft(one(concat("Modelica.Blocks.Math.UnitConversions.To_", trim_start_all_exec(&cs, "to_").as_str()))));
    }
    if str_eq(name, "Material") {
        let alt0 = own("Modelica.Magnetic.FluxTubes.Material");
        if !str_eq(alt0.as_str(), name) {
            return Some(Compat::Soft(one(alt0)));
        }
    }
    if vec_starts_with(&cs, "Material.") {
        let alt0 = concat("Modelica.Magnetic.FluxTubes.Material.", trim_start_all_exec(&cs, "Material.").as_str());
        if !str_eq(alt0.as_str(), name) {
            return Some(Compat::Soft(one(alt0)));
        }
    }
    None
}

/// The names to try before the cache is consulted for `name`.
pub fn early_compat(name: &str) -> (r: Compat)
    ensures
        r@ == spec_early_compat(name@),
{
    let cs = chars_of(name);
    match early_part0_exec(name, &cs) {
        Some(c) => {
            return c;
        },
        None => {},
    }
    match early_part1_exec(name, &cs) {
        Some(c) => {
            return c;
        },
        None => {},
    }
    match early_part2_exec(name, &cs) {
        Some(c) => {
            return c;
        },
        None => {},
    }
    match early_part3_exec(name, &cs) {
        Some(c) => {
            return c;
        },
        None => {},
    }
    Compat::Plain
}

/// The names to try when neither a file nor the parent class gives `name`.
pub fn late_compat(name: &str) -> (r: Compat)
    ensures
        r@ == spec_late_compat(name@),
{
    let cs = chars_of(name);
    match late_part0_exec(name, &cs) {
        Some(c) => {
            return c;
        },
        None => {},
    }
    match late_part1_exec(name, &cs) {
        Some(c) => {
            return c;
        },
        None => {},
    }
    Compat::Plain
}
} // verus!

verus! {

/// For the helper names that both tables know, and for the names under the
/// prefixes `from_`, `to_`, `FluidHeatFlow.` and `Material.`, the late table
/// gives the same soft list as the early one, in the same order: the late
/// lookup repeats the early one for them.
pub proof fn law_late_repeats_early(name: Seq<char>)
    requires
        name == "semiLinear"@
            || name == "arg"@
            || name == "distribution"@
            || name == "oneTrue"@
            || name == "isPowerOf2"@
            || name == "numberOfSymmetricBaseSystems"@
            || name == "factorY2DC"@
            || name == "exlin"@
            || name == "exlin2"@
            || name == "valveCharacteristic"@
            || name == "regRoot"@
            || name == "regRoot2"@
            || name == "regSquare2"@
            || name == "regFun3"@
            || name == "regStep"@
            || name == "FluidHeatFlow"@
            || name == "Interfaces.FluidHeatFlow"@
            || name == "Material"@
            || starts_with(name, "from_"@)
            || starts_with(name, "to_"@)
            || starts_with(name, "FluidHeatFlow."@)
            || starts_with(name, "Material."@),
    ensures
        spec_early_compat(name) is Soft,
        spec_late_compat(name) == spec_early_compat(name),
{
    reveal_strlit("Modelica.Thermal.FluidHeatFlow.");
    reveal_strlit("Modelica.Magnetic.FluxTubes.Material.");
    reveal_strlit("AxisControlBus");
    reveal_strlit("BooleanSignals");
    reveal_strlit("BooleanSignals.");
    reveal_strlit("ClockSignals");
    reveal_strlit("ClockSignals.");
    reveal_strlit("ControlBus");
    reveal_strlit("FlowModel");
    reveal_strlit("FlowModel.");
    reveal_strlit("FluidHeatFlow");
    reveal_strlit("FluidHeatFlow.");
    reveal_strlit("Forces");
    reveal_strlit("Forces.");
    reveal_strlit("Frames");
    reveal_strlit("Frames.");
    reveal_strlit("HeatPort_a");
    reveal_strlit("HeatPort_a.");
    reveal_strlit("HeatPort_b");
    reveal_strlit("HeatPort_b.");
    reveal_strlit("IntegerSignals");
    reveal_strlit("IntegerSignals.");
    reveal_strlit("Interfaces.FluidHeatFlow");
    reveal_strlit("Joints");
    reveal_strlit("Joints.");
    reveal_strlit("Magnetic");
    reveal_strlit("Magnetic.");
    reveal_strlit("Material");
    reveal_strlit("Material.");
    reveal_strlit("Medium");
    reveal_strlit("Medium.");
    reveal_strlit("Modelica.");
    reveal_strlit("Modelica.Blocks.SymmetricalComponents");
    reveal_strlit("Modelica.Blocks.SymmetricalComponents.");
    reveal_strlit("Modelica.Electrical.Analog.Interfaces.DigitalInput");
    reveal_strlit("Modelica.Electrical.Analog.Interfaces.MemoryBase");
    reveal_strlit("Modelica.Electrical.Analog.Interfaces.NegativePlug");
    reveal_strlit("Modelica.Electrical.Analog.Interfaces.Plug");
    reveal_strlit("Modelica.Electrical.Analog.Interfaces.PositivePlug");
    reveal_strlit("Modelica.Electrical.Analog.Interfaces.Source");
    reveal_strlit("Modelica.Electrical.Analog.Interfaces.TwoPlug");
    reveal_strlit("Modelica.Electrical.Machines.Utilities.LimitedPI");
    reveal_strlit("Modelica.Electrical.Machines.Utilities.PartialControlledDCPM");
    reveal_strlit("Modelica.Electrical.Polyphase.Blocks.SymmetricalComponents");
    reveal_strlit("Modelica.Electrical.Polyphase.Blocks.SymmetricalComponents.");
    reveal_strlit("Modelica.Fluid.Pipes.BaseClasses.PartialValve");
    reveal_strlit("Modelica.Fluid.Pipes.BaseClasses.QuadraticTurbulent");
    reveal_strlit("Modelica.Fluid.Pipes.BaseClasses.QuadraticTurbulent.");
    reveal_strlit("Modelica.Fluid.Pipes.BaseClasses.WallFriction.QuadraticTurbulent.BaseModel");
    reveal_strlit("Modelica.Fluid.Pipes.BaseClasses.WallFriction.QuadraticTurbulent.BaseModelNonconstantCrossSectionArea");
    reveal_strlit("Modelica.Magnetic.FluxTubes.Interfaces.AbsoluteSensor");
    reveal_strlit("Modelica.Magnetic.FluxTubes.Interfaces.AbsoluteSensor.");
    reveal_strlit("Modelica.Magnetic.FluxTubes.Interfaces.RelativeSensor");
    reveal_strlit("Modelica.Magnetic.FluxTubes.Interfaces.RelativeSensor.");
    reveal_strlit("Modelica.Magnetic.FluxTubes.Interfaces.Source");
    reveal_strlit("Modelica.Magnetic.FluxTubes.Interfaces.Source.");
    reveal_strlit("Modelica.Magnetic.FluxTubes.Material");
    reveal_strlit("Modelica.Magnetic.FundamentalWave.Components.QuasiStaticAnalogElectroMagneticConverter");
    reveal_strlit("Modelica.Magnetic.FundamentalWave.Components.QuasiStaticAnalogElectroMagneticConverter.");
    reveal_strlit("Modelica.Magnetic.FundamentalWave.Losses");
    reveal_strlit("Modelica.Magnetic.FundamentalWave.Losses.");
    reveal_strlit("Modelica.Magnetic.FundamentalWave.Utilities");
    reveal_strlit("Modelica.Magnetic.FundamentalWave.Utilities.");
    reveal_strlit("Modelica.Mechanics.Translational.Components.PartialFrictionWithStop");
    reveal_strlit("Modelica.Mechanics.Translational.Components.PartialFrictionWithStop.");
    reveal_strlit("Modelica.Thermal.FluidHeatFlow.Interfaces.FluidHeatFlow");
    reveal_strlit("Parts");
    reveal_strlit("Parts.");
    reveal_strlit("RealSignals");
    reveal_strlit("RealSignals.");
    reveal_strlit("Sampler");
    reveal_strlit("Sampler.");
    reveal_strlit("Shapes");
    reveal_strlit("Shapes.");
    reveal_strlit("Types");
    reveal_strlit("Types.");
    reveal_strlit("arg");
    reveal_strlit("distribution");
    reveal_strlit("exlin");
    reveal_strlit("exlin2");
    reveal_strlit("factorY2DC");
    reveal_strlit("from_");
    reveal_strlit("isPowerOf2");
    reveal_strlit("numberOfSymmetricBaseSystems");
    reveal_strlit("oneTrue");
    reveal_strlit("regFun3");
    reveal_strlit("regRoot");
    reveal_strlit("regRoot2");
    reveal_strlit("regSquare2");
    reveal_strlit("regStep");
    reveal_strlit("semiLinear");
    reveal_strlit("to_");
    reveal_strlit("valveCharacteristic");
    assert forall|l: Seq<char>| #[trigger] starts_with(name, l) && l.len() > 0 implies l[0] == name[0] by {
        assert(name.take(l.len() as int)[0] == name[0]);
    }
    if name == "semiLinear"@ {
        assert(name[0] != "ControlBus"@[0]);
        assert(name[0] != "HeatPort_a"@[0]);
        assert(name[0] != "HeatPort_b"@[0]);
        assert(name[0] != "factorY2DC"@[0]);
        assert(name[0] != "isPowerOf2"@[0]);
        assert(name[0] != "regSquare2"@[0]);
        assert(spec_late_compat(name) == spec_early_compat(name));
    } else if name == "arg"@ {
        assert(spec_late_compat(name) == spec_early_compat(name));
    } else if name == "distribution"@ {
        assert(name[0] != "ClockSignals"@[0]);
        assert(spec_late_compat(name) == spec_early_compat(name));
    } else if name == "oneTrue"@ {
        assert(name[0] != "Sampler"@[0]);
        assert(name[0] != "regFun3"@[0]);
        assert(name[0] != "regRoot"@[0]);
        assert(name[0] != "regStep"@[0]);
        assert(spec_late_compat(name) == spec_early_compat(name));
    } else if name == "isPowerOf2"@ {
        assert(name[0] != "ControlBus"@[0]);
        assert(name[0] != "HeatPort_a"@[0]);
        assert(name[0] != "HeatPort_b"@[0]);
        assert(name[0] != "factorY2DC"@[0]);
        assert(name[0] != "regSquare2"@[0]);
        assert(name[0] != "semiLinear"@[0]);
        assert(spec_late_compat(name) == spec_early_compat(name));
    } else if name == "numberOfSymmetricBaseSystems"@ {
        assert(spec_late_compat(name) == spec_early_compat(name));
    } else if name == "factorY2DC"@ {
        assert(name[0] != "ControlBus"@[0]);
        assert(name[0] != "HeatPort_a"@[0]);
        assert(name[0] != "HeatPort_b"@[0]);
        assert(name[0] != "isPowerOf2"@[0]);
        assert(name[0] != "regSquare2"@[0]);
        assert(name[0] != "semiLinear"@[0]);
        assert(!starts_with(name, "from_"@)) by {
            if starts_with(name, "from_"@) {
                assert(name.take(5)[1] == name[1]);
            }
        }
        assert(spec_late_compat(name) == spec_early_compat(name));
    } else if name == "exlin"@ {
        assert(name[0] != "Parts"@[0]);
        assert(name[0] != "Types"@[0]);
        assert(spec_late_compat(name) == spec_early_compat(name));
    } else if name == "exlin2"@ {
        assert(name[0] != "Forces"@[0]);
        assert(name[0] != "Frames"@[0]);
        assert(name[0] != "Joints"@[0]);
        assert(name[0] != "Medium"@[0]);
        assert(name[0] != "Shapes"@[0]);
        assert(spec_late_compat(name) == spec_early_compat(name));
    } else if name == "valveCharacteristic"@ {
        assert(spec_late_compat(name) == spec_early_compat(name));
    } else if name == "regRoot"@ {
        assert(name[0] != "Sampler"@[0]);
        assert(name[0] != "oneTrue"@[0]);
        assert(name[3] != "regFun3"@[3]);
        assert(name[3] != "regStep"@[3]);
        assert(spec_late_compat(name) == spec_early_compat(name));
    } else if name == "regRoot2"@ {
        assert(name[0] != "Magnetic"@[0]);
        assert(name[0] != "Material"@[0]);
        assert(spec_late_compat(name) == spec_early_compat(name));
    } else if name == "regSquare2"@ {
        assert(name[0] != "ControlBus"@[0]);
        assert(name[0] != "HeatPort_a"@[0]);
        assert(name[0] != "HeatPort_b"@[0]);
        assert(name[0] != "factorY2DC"@[0]);
        assert(name[0] != "isPowerOf2"@[0]);
        assert(name[0] != "semiLinear"@[0]);
        assert(spec_late_compat(name) == spec_early_compat(name));
    } else if name == "regFun3"@ {
        assert(name[0] != "Sampler"@[0]);
        assert(name[0] != "oneTrue"@[0]);
        assert(name[3] != "regRoot"@[3]);
        assert(name[3] != "regStep"@[3]);
        assert(spec_late_compat(name) == spec_early_compat(name));
    } else if name == "regStep"@ {
        assert(name[0] != "Sampler"@[0]);
        assert(name[0] != "oneTrue"@[0]);
        assert(name[3] != "regFun3"@[3]);
        assert(name[3] != "regRoot"@[3]);
        assert(spec_late_compat(name) == spec_early_compat(name));
    } else if name == "FluidHeatFlow"@ {
        assert(!starts_with(name, "FlowModel."@)) by {
            if starts_with(name, "FlowModel."@) {
                assert(name.take(10)[2] == name[2]);
            }
        }
        assert(!starts_with(name, "Forces."@)) by {
            if starts_with(name, "Forces."@) {
                assert(name.take(7)[1] == name[1]);
            }
        }
        assert(!starts_with(name, "Frames."@)) by {
            if starts_with(name, "Frames."@) {
                assert(name.take(7)[1] == name[1]);
            }
        }
        assert(spec_late_compat(name) == spec_early_compat(name));
    } else if name == "Interfaces.FluidHeatFlow"@ {
        assert(!starts_with(name, "IntegerSignals."@)) by {
            if starts_with(name, "IntegerSignals."@) {
                assert(name.take(15)[4] == name[4]);
            }
        }
        assert(spec_late_compat(name) == spec_early_compat(name));
    } else if name == "Material"@ {
        assert(name[2] != "Magnetic"@[2]);
        assert(name[0] != "regRoot2"@[0]);
        assert(!starts_with(name, "Medium."@)) by {
            if starts_with(name, "Medium."@) {
                assert(name.take(7)[1] == name[1]);
            }
        }
        assert(spec_late_compat(name) == spec_early_compat(name));
    } else if starts_with(name, "from_"@) {
        assert(name[0] == 'f') by {
            assert(name.take(5)[0] == name[0]);
        }
        assert(name[1] == 'r') by {
            assert(name.take(5)[1] == name[1]);
        }
        assert(name[2] == 'o') by {
            assert(name.take(5)[2] == name[2]);
        }
        assert(name[3] == 'm') by {
            assert(name.take(5)[3] == name[3]);
        }
        assert(name[4] == '_') by {
            assert(name.take(5)[4] == name[4]);
        }
        assert forall|l: Seq<char>, k: int| #![trigger starts_with(name, l), name[k]]
            starts_with(name, l) && 0 <= k < l.len() implies l[k] == name[k] by {
            assert(name.take(l.len() as int)[k] == name[k]);
        }
        assert(spec_late_compat(name) == spec_early_compat(name));
    } else if starts_with(name, "to_"@) {
        assert(name[0] == 't') by {
            assert(name.take(3)[0] == name[0]);
        }
        assert(name[1] == 'o') by {
            assert(name.take(3)[1] == name[1]);
        }
        assert(name[2] == '_') by {
            assert(name.take(3)[2] == name[2]);
        }
        assert forall|l: Seq<char>, k: int| #![trigger starts_with(name, l), name[k]]
            starts_with(name, l) && 0 <= k < l.len() implies l[k] == name[k] by {
            assert(name.take(l.len() as int)[k] == name[k]);
        }
        assert(spec_late_compat(name) == spec_early_compat(name));
    } else if starts_with(name, "FluidHeatFlow."@) {
        assert(name[0] == 'F') by {
            assert(name.take(14)[0] == name[0]);
        }
        assert(name[1] == 'l') by {
            assert(name.take(14)[1] == name[1]);
        }
        assert(name[2] == 'u') by {
            assert(name.take(14)[2] == name[2]);
        }
        assert(name[3] == 'i') by {
            assert(name.take(14)[3] == name[3]);
        }
        assert(name[4] == 'd') by {
            assert(name.take(14)[4] == name[4]);
        }
        assert(name[5] == 'H') by {
            assert(name.take(14)[5] == name[5]);
        }
        assert(name[6] == 'e') by {
            assert(name.take(14)[6] == name[6]);
        }
        assert(name[7] == 'a') by {
            assert(name.take(14)[7] == name[7]);
        }
        assert(name[8] == 't') by {
            assert(name.take(14)[8] == name[8]);
        }
        assert(name[9] == 'F') by {
            assert(name.take(14)[9] == name[9]);
        }
        assert(name[10] == 'l') by {
            assert(name.take(14)[10] == name[10]);
        }
        assert(name[11] == 'o') by {
            assert(name.take(14)[11] == name[11]);
        }
        assert(name[12] == 'w') by {
            assert(name.take(14)[12] == name[12]);
        }
        assert(name[13] == '.') by {
            assert(name.take(14)[13] == name[13]);
        }
        assert forall|l: Seq<char>, k: int| #![trigger starts_with(name, l), name[k]]
            starts_with(name, l) && 0 <= k < l.len() implies l[k] == name[k] by {
            assert(name.take(l.len() as int)[k] == name[k]);
        }
        assert(spec_late_compat(name) == spec_early_compat(name));
    } else if starts_with(name, "Material."@) {
        assert(name[0] == 'M') by {
            assert(name.take(9)[0] == name[0]);
        }
        assert(name[1] == 'a') by {
            assert(name.take(9)[1] == name[1]);
        }
        assert(name[2] == 't') by {
            assert(name.take(9)[2] == name[2]);
        }
        assert(name[3] == 'e') by {
            assert(name.take(9)[3] == name[3]);
        }
        assert(name[4] == 'r') by {
            assert(name.take(9)[4] == name[4]);
        }
        assert(name[5] == 'i') by {
            assert(name.take(9)[5] == name[5]);
        }
        assert(name[6] == 'a') by {
            assert(name.take(9)[6] == name[6]);
        }
        assert(name[7] == 'l') by {
            assert(name.take(9)[7] == name[7]);
        }
        assert(name[8] == '.') by {
            assert(name.take(9)[8] == name[8]);
        }
        assert forall|l: Seq<char>, k: int| #![trigger starts_with(name, l), name[k]]
            starts_with(name, l) && 0 <= k < l.len() implies l[k] == name[k] by {
            assert(name.take(l.len() as int)[k] == name[k]);
        }
        assert(spec_late_compat(name) == spec_early_compat(name));
    }
}

} // verus!

verus! {

/// `c` offers at least one name, and every name it offers begins with
/// `Modelica.`.
pub open spec fn in_modelica(c: SCompat) -> bool {
    match c {
        SCompat::Plain => true,
        SCompat::Hard(ts) => ts.len() > 0 && forall|i: int| 0 <= i < ts.len() ==> starts_with(#[trigger] ts[i], "Modelica."@),
        SCompat::Soft(ts) => ts.len() > 0 && forall|i: int| 0 <= i < ts.len() ==> starts_with(#[trigger] ts[i], "Modelica."@),
    }
}

/// No name offered by `c` is `name` itself.
pub open spec fn offers_other(c: SCompat, name: Seq<char>) -> bool {
    match c {
        SCompat::Plain => true,
        SCompat::Hard(ts) => forall|i: int| 0 <= i < ts.len() ==> #[trigger] ts[i] != name,
        SCompat::Soft(ts) => forall|i: int| 0 <= i < ts.len() ==> #[trigger] ts[i] != name,
    }
}

/// A prefix of `a` is a prefix of `a + b`.
pub broadcast proof fn lemma_starts_with_concat(a: Seq<char>, b: Seq<char>, p: Seq<char>)
    requires
        starts_with(a, p),
    ensures
        #[trigger] starts_with(a + b, p),
{
    assert((a + b).take(p.len() as int) =~= a.take(p.len() as int));
}

/// The early and the late table offer, for any name they know, at least one
/// name; every name they offer lies in the standard library (it begins with
/// `Modelica.`), and none is the name asked for.
pub proof fn law_compat_candidates_in_modelica(name: Seq<char>)
    ensures
        in_modelica(spec_early_compat(name)),
        in_modelica(spec_late_compat(name)),
        offers_other(spec_early_compat(name), name),
        offers_other(spec_late_compat(name), name),
{
    broadcast use lemma_starts_with_concat;
    reveal_strlit("Modelica.Blocks.SymmetricalComponents.");
    reveal_strlit("Modelica.Electrical.Analog.Interfaces.DigitalInput");
    reveal_strlit("Modelica.Electrical.Analog.Interfaces.MemoryBase");
    reveal_strlit("Modelica.Electrical.Analog.Interfaces.NegativePlug");
    reveal_strlit("Modelica.Electrical.Analog.Interfaces.Plug");
    reveal_strlit("Modelica.Electrical.Analog.Interfaces.PositivePlug");
    reveal_strlit("Modelica.Electrical.Analog.Interfaces.Source");
    reveal_strlit("Modelica.Electrical.Analog.Interfaces.TwoPlug");
    reveal_strlit("Modelica.Electrical.Machines.Utilities.LimitedPI");
    reveal_strlit("Modelica.Electrical.Machines.Utilities.PartialControlledDCPM");
    reveal_strlit("Modelica.Electrical.Polyphase.Blocks.SymmetricalComponents");
    reveal_strlit("Modelica.Electrical.Polyphase.Blocks.SymmetricalComponents.");
    reveal_strlit("Modelica.Fluid.Pipes.BaseClasses.PartialValve");
    reveal_strlit("Modelica.Fluid.Pipes.BaseClasses.QuadraticTurbulent.");
    reveal_strlit("Modelica.Fluid.Pipes.BaseClasses.WallFriction.QuadraticTurbulent.BaseModel");
    reveal_strlit("Modelica.Fluid.Pipes.BaseClasses.WallFriction.QuadraticTurbulent.BaseModelNonconstantCrossSectionArea");
    reveal_strlit("Modelica.Magnetic.FluxTubes.Interfaces.AbsoluteSensor");
    reveal_strlit("Modelica.Magnetic.FluxTubes.Interfaces.AbsoluteSensor.");
    reveal_strlit("Modelica.Magnetic.FluxTubes.Interfaces.RelativeSensor");
    reveal_strlit("Modelica.Magnetic.FluxTubes.Interfaces.RelativeSensor.");
    reveal_strlit("Modelica.Magnetic.FluxTubes.Interfaces.Source");
    reveal_strlit("Modelica.Magnetic.FundamentalWave.Components.QuasiStaticAnalogElectroMagneticConverter.");
    reveal_strlit("Modelica.Magnetic.FundamentalWave.Losses.");
    reveal_strlit("Modelica.Magnetic.FundamentalWave.Utilities.");
    reveal_strlit("Modelica.Mechanics.Translational.Components.PartialFrictionWithStop.");
    reveal_strlit("AxisControlBus");
    reveal_strlit("BooleanSignals");
    reveal_strlit("BooleanSignals.");
    reveal_strlit("ClockSignals");
    reveal_strlit("ClockSignals.");
    reveal_strlit("ControlBus");
    reveal_strlit("FlowModel");
    reveal_strlit("FlowModel.");
    reveal_strlit("FluidHeatFlow");
    reveal_strlit("FluidHeatFlow.");
    reveal_strlit("Forces");
    reveal_strlit("Forces.");
    reveal_strlit("Frames");
    reveal_strlit("Frames.");
    reveal_strlit("HeatPort_a");
    reveal_strlit("HeatPort_a.");
    reveal_strlit("HeatPort_b");
    reveal_strlit("HeatPort_b.");
    reveal_strlit("IntegerSignals");
    reveal_strlit("IntegerSignals.");
    reveal_strlit("Interfaces.FluidHeatFlow");
    reveal_strlit("Joints");
    reveal_strlit("Joints.");
    reveal_strlit("Magnetic");
    reveal_strlit("Magnetic.");
    reveal_strlit("Material");
    reveal_strlit("Material.");
    reveal_strlit("Medium");
    reveal_strlit("Medium.");
    reveal_strlit("Parts");
    reveal_strlit("Parts.");
    reveal_strlit("RealSignals");
    reveal_strlit("RealSignals.");
    reveal_strlit("Sampler");
    reveal_strlit("Sampler.");
    reveal_strlit("Shapes");
    reveal_strlit("Shapes.");
    reveal_strlit("Types");
    reveal_strlit("Types.");
    reveal_strlit("arg");
    reveal_strlit("distribution");
    reveal_strlit("exlin");
    reveal_strlit("exlin2");
    reveal_strlit("factorY2DC");
    reveal_strlit("from_");
    reveal_strlit("isPowerOf2");
    reveal_strlit("numberOfSymmetricBaseSystems");
    reveal_strlit("oneTrue");
    reveal_strlit("regFun3");
    reveal_strlit("regRoot");
    reveal_strlit("regRoot2");
    reveal_strlit("regSquare2");
    reveal_strlit("regStep");
    reveal_strlit("semiLinear");
    reveal_strlit("to_");
    reveal_strlit("valveCharacteristic");
    reveal_strlit("Modelica.");
    reveal_strlit("Modelica.");
    reveal_strlit("Modelica.Blocks.Math.UnitConversions.From_");
    reveal_strlit("Modelica.Blocks.Math.UnitConversions.To_");
    reveal_strlit("Modelica.Blocks.Noise.Interfaces.distribution");
    reveal_strlit("Modelica.Blocks.SymmetricalComponents");
    reveal_strlit("Modelica.Clocked.");
    reveal_strlit("Modelica.Clocked.BooleanSignals.");
    reveal_strlit("Modelica.Clocked.IntegerSignals.");
    reveal_strlit("Modelica.Clocked.RealSignals.");
    reveal_strlit("Modelica.ComplexMath.arg");
    reveal_strlit("Modelica.Electrical.Analog.Interfaces.BooleanInput");
    reveal_strlit("Modelica.Electrical.Analog.Interfaces.NegativePin");
    reveal_strlit("Modelica.Electrical.Analog.Interfaces.Pin");
    reveal_strlit("Modelica.Electrical.Analog.Interfaces.PositivePin");
    reveal_strlit("Modelica.Electrical.Analog.Interfaces.TwoPin");
    reveal_strlit("Modelica.Electrical.Analog.Interfaces.VoltageSource");
    reveal_strlit("Modelica.Electrical.Analog.Semiconductors.exlin");
    reveal_strlit("Modelica.Electrical.Analog.Semiconductors.exlin2");
    reveal_strlit("Modelica.Electrical.Batteries.Utilities.oneTrue");
    reveal_strlit("Modelica.Electrical.Machines.Examples.ControlledDCDrives.Utilities.LimitedPI");
    reveal_strlit("Modelica.Electrical.Machines.Examples.ControlledDCDrives.Utilities.PartialControlledDCPM");
    reveal_strlit("Modelica.Electrical.Polyphase.Blocks");
    reveal_strlit("Modelica.Electrical.Polyphase.Functions.factorY2DC");
    reveal_strlit("Modelica.Electrical.Polyphase.Functions.isPowerOf2");
    reveal_strlit("Modelica.Electrical.Polyphase.Functions.numberOfSymmetricBaseSystems");
    reveal_strlit("Modelica.Electrical.QuasiStatic.Polyphase.Blocks");
    reveal_strlit("Modelica.Electrical.QuasiStatic.Polyphase.Blocks.SymmetricalComponents");
    reveal_strlit("Modelica.Electrical.QuasiStatic.Polyphase.Functions.factorY2DC");
    reveal_strlit("Modelica.Electrical.QuasiStatic.Polyphase.Functions.isPowerOf2");
    reveal_strlit("Modelica.Electrical.QuasiStatic.Polyphase.Functions.numberOfSymmetricBaseSystems");
    reveal_strlit("Modelica.Fluid.Pipes.BaseClasses.FlowModels.DetailedPipeFlow");
    reveal_strlit("Modelica.Fluid.Pipes.BaseClasses.QuadraticTurbulent");
    reveal_strlit("Modelica.Fluid.Pipes.BaseClasses.WallFriction.PartialWallFriction");
    reveal_strlit("Modelica.Fluid.Pipes.BaseClasses.WallFriction.QuadraticTurbulent");
    reveal_strlit("Modelica.Fluid.Utilities.");
    reveal_strlit("Modelica.Fluid.Utilities.semiLinear");
    reveal_strlit("Modelica.Fluid.Valves.BaseClasses.PartialValve");
    reveal_strlit("Modelica.Fluid.Valves.BaseClasses.ValveCharacteristics.linear");
    reveal_strlit("Modelica.Magnetic");
    reveal_strlit("Modelica.Magnetic.FluxTubes.Interfaces.");
    reveal_strlit("Modelica.Magnetic.FluxTubes.Interfaces.Source.");
    reveal_strlit("Modelica.Magnetic.FluxTubes.Material");
    reveal_strlit("Modelica.Magnetic.FluxTubes.Material.");
    reveal_strlit("Modelica.Magnetic.FluxTubes.Shapes");
    reveal_strlit("Modelica.Magnetic.FluxTubes.Shapes.");
    reveal_strlit("Modelica.Magnetic.FundamentalWave.Components.QuasiStaticAnalogElectroMagneticConverter");
    reveal_strlit("Modelica.Magnetic.FundamentalWave.Losses");
    reveal_strlit("Modelica.Magnetic.FundamentalWave.Utilities");
    reveal_strlit("Modelica.Magnetic.QuasiStatic.FluxTubes.Interfaces.");
    reveal_strlit("Modelica.Magnetic.QuasiStatic.FluxTubes.Interfaces.Source");
    reveal_strlit("Modelica.Magnetic.QuasiStatic.FluxTubes.Interfaces.Source.");
    reveal_strlit("Modelica.Magnetic.QuasiStatic.FundamentalWave.Components.QuasiStaticAnalogElectroMagneticConverter");
    reveal_strlit("Modelica.Magnetic.QuasiStatic.FundamentalWave.Losses");
    reveal_strlit("Modelica.Magnetic.QuasiStatic.FundamentalWave.Utilities");
    reveal_strlit("Modelica.Math.Distributions.distribution");
    reveal_strlit("Modelica.Mechanics.MultiBody.");
    reveal_strlit("Modelica.Mechanics.MultiBody.Examples.Systems.RobotR3.Utilities.AxisControlBus");
    reveal_strlit("Modelica.Mechanics.MultiBody.Examples.Systems.RobotR3.Utilities.ControlBus");
    reveal_strlit("Modelica.Mechanics.MultiBody.Types");
    reveal_strlit("Modelica.Mechanics.Translational.Components.MassWithStopAndFriction.PartialFrictionWithStop");
    reveal_strlit("Modelica.Mechanics.Translational.Components.PartialFrictionWithStop");
    reveal_strlit("Modelica.Media.Interfaces.PartialMedium");
    reveal_strlit("Modelica.Media.Interfaces.PartialMedium.");
    reveal_strlit("Modelica.Thermal.FluidHeatFlow.");
    reveal_strlit("Modelica.Thermal.FluidHeatFlow.Interfaces.FluidHeatFlow");
    reveal_strlit("Modelica.Thermal.FluidHeatFlow.Utilities.semiLinear");
    reveal_strlit("Modelica.Thermal.HeatTransfer.Interfaces.");
    reveal_strlit("Modelica.Utilities.Math.");
    reveal_strlit("Modelica.Utilities.Math.semiLinear");
    assert forall|l: Seq<char>|
        l.len() >= 9 && l[0] == 'M' && l[1] == 'o' && l[2] == 'd' && l[3] == 'e' && l[4] == 'l' && l[5] == 'i'
            && l[6] == 'c' && l[7] == 'a' && l[8] == '.' implies #[trigger] starts_with(l, "Modelica."@) by {
        assert(l.take(9) =~= "Modelica."@);
    }
    assert forall|l: Seq<char>| #[trigger] starts_with(name, l) && l.len() > 0 implies l[0] == name[0] by {
        assert(name.take(l.len() as int)[0] == name[0]);
    }
    if name == "Modelica.Electrical.Analog.Interfaces.DigitalInput"@ {
        assert(name[38] == 'D');
        assert(offers_other(spec_early_compat(name), name));
        assert(offers_other(spec_late_compat(name), name));
    }
    if name == "Modelica.Magnetic.FluxTubes.Interfaces.Source"@ {
        assert(name[18] == 'F');
        assert(offers_other(spec_early_compat(name), name));
        assert(offers_other(spec_late_compat(name), name));
    }
    if starts_with(name, "Modelica.Magnetic.FluxTubes.Interfaces.Source."@) {
        assert(name[18] == 'F') by {
            assert(name.take(46)[18] == name[18]);
        }
        assert(offers_other(spec_early_compat(name), name));
        assert(offers_other(spec_late_compat(name), name));
    }
    if name == "Modelica.Magnetic.FluxTubes.Interfaces.RelativeSensor"@ {
        assert(name[18] == 'F');
        assert(offers_other(spec_early_compat(name), name));
        assert(offers_other(spec_late_compat(name), name));
    }
    if starts_with(name, "Modelica.Magnetic.FluxTubes.Interfaces.RelativeSensor."@) {
        assert(name[18] == 'F') by {
            assert(name.take(54)[18] == name[18]);
        }
        assert(offers_other(spec_early_compat(name), name));
        assert(offers_other(spec_late_compat(name), name));
    }
    if name == "Modelica.Magnetic.FluxTubes.Interfaces.AbsoluteSensor"@ {
        assert(name[18] == 'F');
        assert(offers_other(spec_early_compat(name), name));
        assert(offers_other(spec_late_compat(name), name));
    }
    if starts_with(name, "Modelica.Magnetic.FluxTubes.Interfaces.AbsoluteSensor."@) {
        assert(name[18] == 'F') by {
            assert(name.take(54)[18] == name[18]);
        }
        assert(offers_other(spec_early_compat(name), name));
        assert(offers_other(spec_late_compat(name), name));
    }
    if name == "Modelica.Magnetic.FundamentalWave.Components.QuasiStaticAnalogElectroMagneticConverter"@ {
        assert(name[18] == 'F');
        assert(offers_other(spec_early_compat(name), name));
        assert(offers_other(spec_late_compat(name), name));
    }
    if starts_with(name, "Modelica.Magnetic.FundamentalWave.Components.QuasiStaticAnalogElectroMagneticConverter."@) {
        assert(name[18] == 'F') by {
            assert(name.take(87)[18] == name[18]);
        }
        assert(offers_other(spec_early_compat(name), name));
        assert(offers_other(spec_late_compat(name), name));
    }
    if name == "Modelica.Mechanics.Translational.Components.PartialFrictionWithStop"@ {
        assert(name[44] == 'P');
        assert(offers_other(spec_early_compat(name), name));
        assert(offers_other(spec_late_compat(name), name));
    }
    if starts_with(name, "Modelica.Mechanics.Translational.Components.PartialFrictionWithStop."@) {
        assert(name[44] == 'P') by {
            assert(name.take(68)[44] == name[44]);
        }
        assert(offers_other(spec_early_compat(name), name));
        assert(offers_other(spec_late_compat(name), name));
    }
    if name == "Modelica.Fluid.Pipes.BaseClasses.QuadraticTurbulent"@ {
        assert(name[33] == 'Q');
        assert(offers_other(spec_early_compat(name), name));
        assert(offers_other(spec_late_compat(name), name));
    }
    if starts_with(name, "Modelica.Fluid.Pipes.BaseClasses.QuadraticTurbulent."@) {
        assert(name[33] == 'Q') by {
            assert(name.take(52)[33] == name[33]);
        }
        assert(offers_other(spec_early_compat(name), name));
        assert(offers_other(spec_late_compat(name), name));
    }
    if !starts_with(name, "Modelica."@) {
        assert(offers_other(spec_early_compat(name), name));
    } else {
        assert(name[0] == 'M') by {
            assert(name.take(9)[0] == name[0]);
        }
        assert(name[1] == 'o') by {
            assert(name.take(9)[1] == name[1]);
        }
        assert(name[2] == 'd') by {
            assert(name.take(9)[2] == name[2]);
        }
        assert(name[3] == 'e') by {
            assert(name.take(9)[3] == name[3]);
        }
        assert(name[4] == 'l') by {
            assert(name.take(9)[4] == name[4]);
        }
        assert(name[5] == 'i') by {
            assert(name.take(9)[5] == name[5]);
        }
        assert(name[6] == 'c') by {
            assert(name.take(9)[6] == name[6]);
        }
        assert(name[7] == 'a') by {
            assert(name.take(9)[7] == name[7]);
        }
        assert(name[8] == '.') by {
            assert(name.take(9)[8] == name[8]);
        }
        assert forall|l: Seq<char>, k: int| #![trigger starts_with(name, l), name[k]]
            starts_with(name, l) && 0 <= k < l.len() implies l[k] == name[k] by {
            assert(name.take(l.len() as int)[k] == name[k]);
        }
        assert(offers_other(spec_early_compat(name), name));
        assert(offers_other(spec_late_compat(name), name));
    }
}

} // verus!

verus! {

/// The names that an early alias of `name` leads to, in order; none where it
/// has no early alias.
pub open spec fn early_targets(name: Seq<char>) -> Seq<Seq<char>> {
    match spec_early_compat(name) {
        SCompat::Plain => Seq::empty(),
        SCompat::Hard(ts) => ts,
        SCompat::Soft(ts) => ts,
    }
}

/// The names where the early aliases of ordinary names end: one of these
/// names, or a name under one of these prefixes.
pub open spec fn alias_end(c: Seq<char>) -> bool {
    starts_with(c, "Modelica.Blocks.Math.UnitConversions.From_"@)
    || starts_with(c, "Modelica.Blocks.Math.UnitConversions.To_"@)
    || starts_with(c, "Modelica.Clocked."@)
    || starts_with(c, "Modelica.Clocked.BooleanSignals."@)
    || starts_with(c, "Modelica.Clocked.IntegerSignals."@)
    || starts_with(c, "Modelica.Clocked.RealSignals."@)
    || starts_with(c, "Modelica.Fluid.Pipes.BaseClasses.FlowModels.DetailedPipeFlow"@)
    || starts_with(c, "Modelica.Fluid.Utilities."@)
    || starts_with(c, "Modelica.Magnetic.FluxTubes.Material."@)
    || starts_with(c, "Modelica.Magnetic.FluxTubes.Shapes."@)
    || starts_with(c, "Modelica.Magnetic.QuasiStatic.FluxTubes.Interfaces."@)
    || starts_with(c, "Modelica.Magnetic.QuasiStatic.FluxTubes.Interfaces.Source."@)
    || starts_with(c, "Modelica.Magnetic.QuasiStatic.FundamentalWave.Components.QuasiStaticAnalogElectroMagneticConverter"@)
    || starts_with(c, "Modelica.Mechanics.MultiBody."@)
    || starts_with(c, "Modelica.Mechanics.Translational.Components.MassWithStopAndFriction.PartialFrictionWithStop"@)
    || starts_with(c, "Modelica.Media.Interfaces.PartialMedium."@)
    || starts_with(c, "Modelica.Thermal.FluidHeatFlow."@)
    || starts_with(c, "Modelica.Thermal.HeatTransfer.Interfaces."@)
    || starts_with(c, "Modelica.Utilities.Math."@)
    || c == "Modelica.Blocks.Noise.Interfaces.distribution"@
    || c == "Modelica.ComplexMath.arg"@
    || c == "Modelica.Electrical.Analog.Interfaces.BooleanInput"@
    || c == "Modelica.Electrical.Analog.Interfaces.NegativePin"@
    || c == "Modelica.Electrical.Analog.Interfaces.Pin"@
    || c == "Modelica.Electrical.Analog.Interfaces.PositivePin"@
    || c == "Modelica.Electrical.Analog.Interfaces.TwoPin"@
    || c == "Modelica.Electrical.Analog.Interfaces.VoltageSource"@
    || c == "Modelica.Electrical.Analog.Semiconductors.exlin"@
    || c == "Modelica.Electrical.Analog.Semiconductors.exlin2"@
    || c == "Modelica.Electrical.Batteries.Utilities.oneTrue"@
    || c == "Modelica.Electrical.Machines.Examples.ControlledDCDrives.Utilities.LimitedPI"@
    || c == "Modelica.Electrical.Machines.Examples.ControlledDCDrives.Utilities.PartialControlledDCPM"@
    || c == "Modelica.Electrical.Polyphase.Functions.factorY2DC"@
    || c == "Modelica.Electrical.Polyphase.Functions.isPowerOf2"@
    || c == "Modelica.Electrical.Polyphase.Functions.numberOfSymmetricBaseSystems"@
    || c == "Modelica.Electrical.QuasiStatic.Polyphase.Functions.factorY2DC"@
    || c == "Modelica.Electrical.QuasiStatic.Polyphase.Functions.isPowerOf2"@
    || c == "Modelica.Electrical.QuasiStatic.Polyphase.Functions.numberOfSymmetricBaseSystems"@
    || c == "Modelica.Fluid.Pipes.BaseClasses.FlowModels.DetailedPipeFlow"@
    || c == "Modelica.Fluid.Pipes.BaseClasses.WallFriction.PartialWallFriction"@
    || c == "Modelica.Fluid.Utilities.semiLinear"@
    || c == "Modelica.Fluid.Valves.BaseClasses.ValveCharacteristics.linear"@
    || c == "Modelica.Magnetic"@
    || c == "Modelica.Magnetic.FluxTubes.Material"@
    || c == "Modelica.Magnetic.FluxTubes.Shapes"@
    || c == "Modelica.Magnetic.QuasiStatic.FluxTubes.Interfaces.Source"@
    || c == "Modelica.Math.Distributions.distribution"@
    || c == "Modelica.Mechanics.MultiBody.Examples.Systems.RobotR3.Utilities.AxisControlBus"@
    || c == "Modelica.Mechanics.MultiBody.Examples.Systems.RobotR3.Utilities.ControlBus"@
    || c == "Modelica.Mechanics.MultiBody.Types"@
    || c == "Modelica.Media.Interfaces.PartialMedium"@
    || c == "Modelica.Thermal.FluidHeatFlow.Interfaces.FluidHeatFlow"@
    || c == "Modelica.Thermal.FluidHeatFlow.Utilities.semiLinear"@
    || c == "Modelica.Utilities.Math.semiLinear"@
}

/// No early alias starts from a name where the ordinary aliases end.
proof fn lemma_alias_end_is_plain(c: Seq<char>)
    requires
        alias_end(c),
    ensures
        spec_early_compat(c) is Plain,
{
    reveal_strlit("AxisControlBus");
    reveal_strlit("BooleanSignals");
    reveal_strlit("BooleanSignals.");
    reveal_strlit("ClockSignals");
    reveal_strlit("ClockSignals.");
    reveal_strlit("ControlBus");
    reveal_strlit("FlowModel");
    reveal_strlit("FlowModel.");
    reveal_strlit("FluidHeatFlow");
    reveal_strlit("FluidHeatFlow.");
    reveal_strlit("Forces");
    reveal_strlit("Forces.");
    reveal_strlit("Frames");
    reveal_strlit("Frames.");
    reveal_strlit("HeatPort_a");
    reveal_strlit("HeatPort_a.");
    reveal_strlit("HeatPort_b");
    reveal_strlit("HeatPort_b.");
    reveal_strlit("IntegerSignals");
    reveal_strlit("IntegerSignals.");
    reveal_strlit("Interfaces.FluidHeatFlow");
    reveal_strlit("Joints");
    reveal_strlit("Joints.");
    reveal_strlit("Magnetic");
    reveal_strlit("Magnetic.");
    reveal_strlit("Material");
    reveal_strlit("Material.");
    reveal_strlit("Medium");
    reveal_strlit("Medium.");
    reveal_strlit("Modelica.");
    reveal_strlit("Modelica.Blocks.Math.UnitConversions.From_");
    reveal_strlit("Modelica.Blocks.Math.UnitConversions.To_");
    reveal_strlit("Modelica.Blocks.Noise.Interfaces.distribution");
    reveal_strlit("Modelica.Clocked.");
    reveal_strlit("Modelica.Clocked.BooleanSignals.");
    reveal_strlit("Modelica.Clocked.IntegerSignals.");
    reveal_strlit("Modelica.Clocked.RealSignals.");
    reveal_strlit("Modelica.ComplexMath.arg");
    reveal_strlit("Modelica.Electrical.Analog.Interfaces.BooleanInput");
    reveal_strlit("Modelica.Electrical.Analog.Interfaces.DigitalInput");
    reveal_strlit("Modelica.Electrical.Analog.Interfaces.MemoryBase");
    reveal_strlit("Modelica.Electrical.Analog.Interfaces.NegativePin");
    reveal_strlit("Modelica.Electrical.Analog.Interfaces.NegativePlug");
    reveal_strlit("Modelica.Electrical.Analog.Interfaces.Pin");
    reveal_strlit("Modelica.Electrical.Analog.Interfaces.Plug");
    reveal_strlit("Modelica.Electrical.Analog.Interfaces.PositivePin");
    reveal_strlit("Modelica.Electrical.Analog.Interfaces.PositivePlug");
    reveal_strlit("Modelica.Electrical.Analog.Interfaces.Source");
    reveal_strlit("Modelica.Electrical.Analog.Interfaces.TwoPin");
    reveal_strlit("Modelica.Electrical.Analog.Interfaces.TwoPlug");
    reveal_strlit("Modelica.Electrical.Analog.Interfaces.VoltageSource");
    reveal_strlit("Modelica.Electrical.Analog.Semiconductors.exlin");
    reveal_strlit("Modelica.Electrical.Analog.Semiconductors.exlin2");
    reveal_strlit("Modelica.Electrical.Batteries.Utilities.oneTrue");
    reveal_strlit("Modelica.Electrical.Machines.Examples.ControlledDCDrives.Utilities.LimitedPI");
    reveal_strlit("Modelica.Electrical.Machines.Examples.ControlledDCDrives.Utilities.PartialControlledDCPM");
    reveal_strlit("Modelica.Electrical.Machines.Utilities.LimitedPI");
    reveal_strlit("Modelica.Electrical.Machines.Utilities.PartialControlledDCPM");
    reveal_strlit("Modelica.Electrical.Polyphase.Functions.factorY2DC");
    reveal_strlit("Modelica.Electrical.Polyphase.Functions.isPowerOf2");
    reveal_strlit("Modelica.Electrical.Polyphase.Functions.numberOfSymmetricBaseSystems");
    reveal_strlit("Modelica.Electrical.QuasiStatic.Polyphase.Functions.factorY2DC");
    reveal_strlit("Modelica.Electrical.QuasiStatic.Polyphase.Functions.isPowerOf2");
    reveal_strlit("Modelica.Electrical.QuasiStatic.Polyphase.Functions.numberOfSymmetricBaseSystems");
    reveal_strlit("Modelica.Fluid.Pipes.BaseClasses.FlowModels.DetailedPipeFlow");
    reveal_strlit("Modelica.Fluid.Pipes.BaseClasses.QuadraticTurbulent");
    reveal_strlit("Modelica.Fluid.Pipes.BaseClasses.QuadraticTurbulent.");
    reveal_strlit("Modelica.Fluid.Pipes.BaseClasses.WallFriction.PartialWallFriction");
    reveal_strlit("Modelica.Fluid.Pipes.BaseClasses.WallFriction.QuadraticTurbulent.BaseModel");
    reveal_strlit("Modelica.Fluid.Pipes.BaseClasses.WallFriction.QuadraticTurbulent.BaseModelNonconstantCrossSectionArea");
    reveal_strlit("Modelica.Fluid.Utilities.");
    reveal_strlit("Modelica.Fluid.Utilities.semiLinear");
    reveal_strlit("Modelica.Fluid.Valves.BaseClasses.ValveCharacteristics.linear");
    reveal_strlit("Modelica.Magnetic");
    reveal_strlit("Modelica.Magnetic.FluxTubes.Interfaces.AbsoluteSensor");
    reveal_strlit("Modelica.Magnetic.FluxTubes.Interfaces.AbsoluteSensor.");
    reveal_strlit("Modelica.Magnetic.FluxTubes.Interfaces.RelativeSensor");
    reveal_strlit("Modelica.Magnetic.FluxTubes.Interfaces.RelativeSensor.");
    reveal_strlit("Modelica.Magnetic.FluxTubes.Interfaces.Source");
    reveal_strlit("Modelica.Magnetic.FluxTubes.Interfaces.Source.");
    reveal_strlit("Modelica.Magnetic.FluxTubes.Material");
    reveal_strlit("Modelica.Magnetic.FluxTubes.Material.");
    reveal_strlit("Modelica.Magnetic.FluxTubes.Shapes");
    reveal_strlit("Modelica.Magnetic.FluxTubes.Shapes.");
    reveal_strlit("Modelica.Magnetic.FundamentalWave.Components.QuasiStaticAnalogElectroMagneticConverter");
    reveal_strlit("Modelica.Magnetic.FundamentalWave.Components.QuasiStaticAnalogElectroMagneticConverter.");
    reveal_strlit("Modelica.Magnetic.QuasiStatic.FluxTubes.Interfaces.");
    reveal_strlit("Modelica.Magnetic.QuasiStatic.FluxTubes.Interfaces.Source");
    reveal_strlit("Modelica.Magnetic.QuasiStatic.FluxTubes.Interfaces.Source.");
    reveal_strlit("Modelica.Magnetic.QuasiStatic.FundamentalWave.Components.QuasiStaticAnalogElectroMagneticConverter");
    reveal_strlit("Modelica.Math.Distributions.distribution");
    reveal_strlit("Modelica.Mechanics.MultiBody.");
    reveal_strlit("Modelica.Mechanics.MultiBody.Examples.Systems.RobotR3.Utilities.AxisControlBus");
    reveal_strlit("Modelica.Mechanics.MultiBody.Examples.Systems.RobotR3.Utilities.ControlBus");
    reveal_strlit("Modelica.Mechanics.MultiBody.Types");
    reveal_strlit("Modelica.Mechanics.Translational.Components.MassWithStopAndFriction.PartialFrictionWithStop");
    reveal_strlit("Modelica.Mechanics.Translational.Components.PartialFrictionWithStop");
    reveal_strlit("Modelica.Mechanics.Translational.Components.PartialFrictionWithStop.");
    reveal_strlit("Modelica.Media.Interfaces.PartialMedium");
    reveal_strlit("Modelica.Media.Interfaces.PartialMedium.");
    reveal_strlit("Modelica.Thermal.FluidHeatFlow.");
    reveal_strlit("Modelica.Thermal.FluidHeatFlow.Interfaces.FluidHeatFlow");
    reveal_strlit("Modelica.Thermal.FluidHeatFlow.Utilities.semiLinear");
    reveal_strlit("Modelica.Thermal.HeatTransfer.Interfaces.");
    reveal_strlit("Modelica.Utilities.Math.");
    reveal_strlit("Modelica.Utilities.Math.semiLinear");
    reveal_strlit("Parts");
    reveal_strlit("Parts.");
    reveal_strlit("RealSignals");
    reveal_strlit("RealSignals.");
    reveal_strlit("Sampler");
    reveal_strlit("Sampler.");
    reveal_strlit("Shapes");
    reveal_strlit("Shapes.");
    reveal_strlit("Types");
    reveal_strlit("Types.");
    reveal_strlit("arg");
    reveal_strlit("distribution");
    reveal_strlit("exlin");
    reveal_strlit("exlin2");
    reveal_strlit("factorY2DC");
    reveal_strlit("from_");
    reveal_strlit("isPowerOf2");
    reveal_strlit("numberOfSymmetricBaseSystems");
    reveal_strlit("oneTrue");
    reveal_strlit("regFun3");
    reveal_strlit("regRoot");
    reveal_strlit("regRoot2");
    reveal_strlit("regSquare2");
    reveal_strlit("regStep");
    reveal_strlit("semiLinear");
    reveal_strlit("to_");
    reveal_strlit("valveCharacteristic");
    assert forall|l: Seq<char>| #[trigger] starts_with(c, l) implies
        (l.len() > 0 ==> l[0] == c[0])
            && (l.len() > 1 ==> l[1] == c[1])
            && (l.len() > 9 ==> l[9] == c[9])
            && (l.len() > 10 ==> l[10] == c[10])
            && (l.len() > 11 ==> l[11] == c[11])
            && (l.len() > 15 ==> l[15] == c[15])
            && (l.len() > 18 ==> l[18] == c[18])
            && (l.len() > 19 ==> l[19] == c[19])
            && (l.len() > 20 ==> l[20] == c[20])
            && (l.len() > 27 ==> l[27] == c[27])
            && (l.len() > 28 ==> l[28] == c[28])
            && (l.len() > 33 ==> l[33] == c[33])
            && (l.len() > 38 ==> l[38] == c[38])
            && (l.len() > 39 ==> l[39] == c[39])
            && (l.len() > 44 ==> l[44] == c[44]) by {
        if l.len() > 0 {
            assert(c.take(l.len() as int)[0] == c[0]);
        }
        if l.len() > 1 {
            assert(c.take(l.len() as int)[1] == c[1]);
        }
        if l.len() > 9 {
            assert(c.take(l.len() as int)[9] == c[9]);
        }
        if l.len() > 10 {
            assert(c.take(l.len() as int)[10] == c[10]);
        }
        if l.len() > 11 {
            assert(c.take(l.len() as int)[11] == c[11]);
        }
        if l.len() > 15 {
            assert(c.take(l.len() as int)[15] == c[15]);
        }
        if l.len() > 18 {
            assert(c.take(l.len() as int)[18] == c[18]);
        }
        if l.len() > 19 {
            assert(c.take(l.len() as int)[19] == c[19]);
        }
        if l.len() > 20 {
            assert(c.take(l.len() as int)[20] == c[20]);
        }
        if l.len() > 27 {
            assert(c.take(l.len() as int)[27] == c[27]);
        }
        if l.len() > 28 {
            assert(c.take(l.len() as int)[28] == c[28]);
        }
        if l.len() > 33 {
            assert(c.take(l.len() as int)[33] == c[33]);
        }
        if l.len() > 38 {
            assert(c.take(l.len() as int)[38] == c[38]);
        }
        if l.len() > 39 {
            assert(c.take(l.len() as int)[39] == c[39]);
        }
        if l.len() > 44 {
            assert(c.take(l.len() as int)[44] == c[44]);
        }
    }
    if starts_with(c, "Modelica.Blocks.Math.UnitConversions.From_"@) {
        assert(spec_early_compat(c) is Plain);
    } else if starts_with(c, "Modelica.Blocks.Math.UnitConversions.To_"@) {
        assert(spec_early_compat(c) is Plain);
    } else if starts_with(c, "Modelica.Clocked."@) {
        assert(spec_early_compat(c) is Plain);
    } else if starts_with(c, "Modelica.Clocked.BooleanSignals."@) {
        assert(spec_early_compat(c) is Plain);
    } else if starts_with(c, "Modelica.Clocked.IntegerSignals."@) {
        assert(spec_early_compat(c) is Plain);
    } else if starts_with(c, "Modelica.Clocked.RealSignals."@) {
        assert(spec_early_compat(c) is Plain);
    } else if starts_with(c, "Modelica.Fluid.Pipes.BaseClasses.FlowModels.DetailedPipeFlow"@) {
        assert(spec_early_compat(c) is Plain);
    } else if starts_with(c, "Modelica.Fluid.Utilities."@) {
        assert(spec_early_compat(c) is Plain);
    } else if starts_with(c, "Modelica.Magnetic.FluxTubes.Material."@) {
        assert(spec_early_compat(c) is Plain);
    } else if starts_with(c, "Modelica.Magnetic.FluxTubes.Shapes."@) {
        assert(spec_early_compat(c) is Plain);
    } else if starts_with(c, "Modelica.Magnetic.QuasiStatic.FluxTubes.Interfaces."@) {
        assert(spec_early_compat(c) is Plain);
    } else if starts_with(c, "Modelica.Magnetic.QuasiStatic.FluxTubes.Interfaces.Source."@) {
        assert(spec_early_compat(c) is Plain);
    } else if starts_with(c, "Modelica.Magnetic.QuasiStatic.FundamentalWave.Components.QuasiStaticAnalogElectroMagneticConverter"@) {
        assert(spec_early_compat(c) is Plain);
    } else if starts_with(c, "Modelica.Mechanics.MultiBody."@) {
        assert(spec_early_compat(c) is Plain);
    } else if starts_with(c, "Modelica.Mechanics.Translational.Components.MassWithStopAndFriction.PartialFrictionWithStop"@) {
        assert(spec_early_compat(c) is Plain);
    } else if starts_with(c, "Modelica.Media.Interfaces.PartialMedium."@) {
        assert(spec_early_compat(c) is Plain);
    } else if starts_with(c, "Modelica.Thermal.FluidHeatFlow."@) {
        assert(spec_early_compat(c) is Plain);
    } else if starts_with(c, "Modelica.Thermal.HeatTransfer.Interfaces."@) {
        assert(spec_early_compat(c) is Plain);
    } else if starts_with(c, "Modelica.Utilities.Math."@) {
        assert(spec_early_compat(c) is Plain);
    } else if c == "Modelica.Blocks.Noise.Interfaces.distribution"@ {
        assert(c[9] == 'B');
        assert(spec_early_compat(c) is Plain);
    } else if c == "Modelica.ComplexMath.arg"@ {
        assert(c[0] == 'M');
        assert(spec_early_compat(c) is Plain);
    } else if c == "Modelica.Electrical.Analog.Interfaces.BooleanInput"@ {
        assert(c[38] == 'B');
        assert(spec_early_compat(c) is Plain);
    } else if c == "Modelica.Electrical.Analog.Interfaces.NegativePin"@ {
        assert(spec_early_compat(c) is Plain);
    } else if c == "Modelica.Electrical.Analog.Interfaces.Pin"@ {
        assert(spec_early_compat(c) is Plain);
    } else if c == "Modelica.Electrical.Analog.Interfaces.PositivePin"@ {
        assert(spec_early_compat(c) is Plain);
    } else if c == "Modelica.Electrical.Analog.Interfaces.TwoPin"@ {
        assert(c[38] == 'T');
        assert(spec_early_compat(c) is Plain);
    } else if c == "Modelica.Electrical.Analog.Interfaces.VoltageSource"@ {
        assert(c[9] == 'E');
        assert(spec_early_compat(c) is Plain);
    } else if c == "Modelica.Electrical.Analog.Semiconductors.exlin"@ {
        assert(spec_early_compat(c) is Plain);
    } else if c == "Modelica.Electrical.Analog.Semiconductors.exlin2"@ {
        assert(c[20] == 'A');
        assert(c[27] == 'S');
        assert(spec_early_compat(c) is Plain);
    } else if c == "Modelica.Electrical.Batteries.Utilities.oneTrue"@ {
        assert(spec_early_compat(c) is Plain);
    } else if c == "Modelica.Electrical.Machines.Examples.ControlledDCDrives.Utilities.LimitedPI"@ {
        assert(spec_early_compat(c) is Plain);
    } else if c == "Modelica.Electrical.Machines.Examples.ControlledDCDrives.Utilities.PartialControlledDCPM"@ {
        assert(spec_early_compat(c) is Plain);
    } else if c == "Modelica.Electrical.Polyphase.Functions.factorY2DC"@ {
        assert(c[20] == 'P');
        assert(spec_early_compat(c) is Plain);
    } else if c == "Modelica.Electrical.Polyphase.Functions.isPowerOf2"@ {
        assert(c[20] == 'P');
        assert(spec_early_compat(c) is Plain);
    } else if c == "Modelica.Electrical.Polyphase.Functions.numberOfSymmetricBaseSystems"@ {
        assert(spec_early_compat(c) is Plain);
    } else if c == "Modelica.Electrical.QuasiStatic.Polyphase.Functions.factorY2DC"@ {
        assert(spec_early_compat(c) is Plain);
    } else if c == "Modelica.Electrical.QuasiStatic.Polyphase.Functions.isPowerOf2"@ {
        assert(spec_early_compat(c) is Plain);
    } else if c == "Modelica.Electrical.QuasiStatic.Polyphase.Functions.numberOfSymmetricBaseSystems"@ {
        assert(spec_early_compat(c) is Plain);
    } else if c == "Modelica.Fluid.Pipes.BaseClasses.FlowModels.DetailedPipeFlow"@ {
        assert(c[9] == 'F');
        assert(spec_early_compat(c) is Plain);
    } else if c == "Modelica.Fluid.Pipes.BaseClasses.WallFriction.PartialWallFriction"@ {
        assert(spec_early_compat(c) is Plain);
    } else if c == "Modelica.Fluid.Utilities.semiLinear"@ {
        assert(spec_early_compat(c) is Plain);
    } else if c == "Modelica.Fluid.Valves.BaseClasses.ValveCharacteristics.linear"@ {
        assert(spec_early_compat(c) is Plain);
    } else if c == "Modelica.Magnetic"@ {
        assert(spec_early_compat(c) is Plain);
    } else if c == "Modelica.Magnetic.FluxTubes.Material"@ {
        assert(spec_early_compat(c) is Plain);
    } else if c == "Modelica.Magnetic.FluxTubes.Shapes"@ {
        assert(spec_early_compat(c) is Plain);
    } else if c == "Modelica.Magnetic.QuasiStatic.FluxTubes.Interfaces.Source"@ {
        assert(spec_early_compat(c) is Plain);
    } else if c == "Modelica.Math.Distributions.distribution"@ {
        assert(spec_early_compat(c) is Plain);
    } else if c == "Modelica.Mechanics.MultiBody.Examples.Systems.RobotR3.Utilities.AxisControlBus"@ {
        assert(spec_early_compat(c) is Plain);
    } else if c == "Modelica.Mechanics.MultiBody.Examples.Systems.RobotR3.Utilities.ControlBus"@ {
        assert(c[9] == 'M');
        assert(spec_early_compat(c) is Plain);
    } else if c == "Modelica.Mechanics.MultiBody.Types"@ {
        assert(spec_early_compat(c) is Plain);
    } else if c == "Modelica.Media.Interfaces.PartialMedium"@ {
        assert(spec_early_compat(c) is Plain);
    } else if c == "Modelica.Thermal.FluidHeatFlow.Interfaces.FluidHeatFlow"@ {
        assert(spec_early_compat(c) is Plain);
    } else if c == "Modelica.Thermal.FluidHeatFlow.Utilities.semiLinear"@ {
        assert(c[9] == 'T');
        assert(spec_early_compat(c) is Plain);
    } else if c == "Modelica.Utilities.Math.semiLinear"@ {
        assert(spec_early_compat(c) is Plain);
    }
}

} // verus!

verus! {

/// Names from which two early-alias steps follow one another.
pub open spec fn alias_two_step(name: Seq<char>) -> bool {
    (starts_with(name, "Magnetic."@) && !starts_with(name, "Modelica."@))
        || name == "Modelica.Fluid.Pipes.BaseClasses.QuadraticTurbulent"@
        || starts_with(name, "Modelica.Fluid.Pipes.BaseClasses.QuadraticTurbulent."@)
}

/// How many early-alias steps can follow one another from `name` at most.
pub open spec fn alias_depth(name: Seq<char>) -> int {
    if spec_early_compat(name) is Plain {
        0
    } else if alias_two_step(name) {
        2
    } else {
        1
    }
}

/// `a` is a prefix of `a + b`.
pub broadcast proof fn lemma_starts_with_own_concat(a: Seq<char>, b: Seq<char>)
    ensures
        #[trigger] starts_with(a + b, a),
{
    assert((a + b).take(a.len() as int) =~= a);
}

/// Each early-alias step leads to a name from which fewer steps follow.
pub proof fn lemma_alias_depth_drops(name: Seq<char>, i: int)
    requires
        0 <= i < early_targets(name).len(),
    ensures
        alias_depth(early_targets(name)[i]) < alias_depth(name),
{
    broadcast use lemma_starts_with_own_concat;
    reveal_strlit("Modelica.");
    reveal_strlit("Magnetic.");
    reveal_strlit("Modelica.Fluid.Pipes.BaseClasses.QuadraticTurbulent");
    reveal_strlit("Modelica.Fluid.Pipes.BaseClasses.QuadraticTurbulent.");
    reveal_strlit("Modelica.Fluid.Pipes.BaseClasses.WallFriction.QuadraticTurbulent");
    reveal_strlit("AxisControlBus");
    reveal_strlit("BooleanSignals");
    reveal_strlit("BooleanSignals.");
    reveal_strlit("ClockSignals");
    reveal_strlit("ClockSignals.");
    reveal_strlit("ControlBus");
    reveal_strlit("FlowModel");
    reveal_strlit("FlowModel.");
    reveal_strlit("FluidHeatFlow");
    reveal_strlit("FluidHeatFlow.");
    reveal_strlit("Forces");
    reveal_strlit("Forces.");
    reveal_strlit("Frames");
    reveal_strlit("Frames.");
    reveal_strlit("HeatPort_a");
    reveal_strlit("HeatPort_a.");
    reveal_strlit("HeatPort_b");
    reveal_strlit("HeatPort_b.");
    reveal_strlit("IntegerSignals");
    reveal_strlit("IntegerSignals.");
    reveal_strlit("Interfaces.FluidHeatFlow");
    reveal_strlit("Joints");
    reveal_strlit("Joints.");
    reveal_strlit("Magnetic");
    reveal_strlit("Material");
    reveal_strlit("Material.");
    reveal_strlit("Medium");
    reveal_strlit("Medium.");
    reveal_strlit("Modelica.Electrical.Analog.Interfaces.DigitalInput");
    reveal_strlit("Modelica.Electrical.Analog.Interfaces.MemoryBase");
    reveal_strlit("Modelica.Electrical.Analog.Interfaces.NegativePlug");
    reveal_strlit("Modelica.Electrical.Analog.Interfaces.Plug");
    reveal_strlit("Modelica.Electrical.Analog.Interfaces.PositivePlug");
    reveal_strlit("Modelica.Electrical.Analog.Interfaces.Source");
    reveal_strlit("Modelica.Electrical.Analog.Interfaces.TwoPlug");
    reveal_strlit("Modelica.Electrical.Machines.Utilities.LimitedPI");
    reveal_strlit("Modelica.Electrical.Machines.Utilities.PartialControlledDCPM");
    reveal_strlit("Modelica.Fluid.Pipes.BaseClasses.WallFriction.QuadraticTurbulent.BaseModel");
    reveal_strlit("Modelica.Fluid.Pipes.BaseClasses.WallFriction.QuadraticTurbulent.BaseModelNonconstantCrossSectionArea");
    reveal_strlit("Modelica.Magnetic.FluxTubes.Interfaces.AbsoluteSensor");
    reveal_strlit("Modelica.Magnetic.FluxTubes.Interfaces.AbsoluteSensor.");
    reveal_strlit("Modelica.Magnetic.FluxTubes.Interfaces.RelativeSensor");
    reveal_strlit("Modelica.Magnetic.FluxTubes.Interfaces.RelativeSensor.");
    reveal_strlit("Modelica.Magnetic.FluxTubes.Interfaces.Source");
    reveal_strlit("Modelica.Magnetic.FluxTubes.Interfaces.Source.");
    reveal_strlit("Modelica.Magnetic.FundamentalWave.Components.QuasiStaticAnalogElectroMagneticConverter");
    reveal_strlit("Modelica.Magnetic.FundamentalWave.Components.QuasiStaticAnalogElectroMagneticConverter.");
    reveal_strlit("Modelica.Mechanics.Translational.Components.PartialFrictionWithStop");
    reveal_strlit("Modelica.Mechanics.Translational.Components.PartialFrictionWithStop.");
    reveal_strlit("Parts");
    reveal_strlit("Parts.");
    reveal_strlit("RealSignals");
    reveal_strlit("RealSignals.");
    reveal_strlit("Sampler");
    reveal_strlit("Sampler.");
    reveal_strlit("Shapes");
    reveal_strlit("Shapes.");
    reveal_strlit("Types");
    reveal_strlit("Types.");
    reveal_strlit("arg");
    reveal_strlit("distribution");
    reveal_strlit("exlin");
    reveal_strlit("exlin2");
    reveal_strlit("factorY2DC");
    reveal_strlit("from_");
    reveal_strlit("isPowerOf2");
    reveal_strlit("numberOfSymmetricBaseSystems");
    reveal_strlit("oneTrue");
    reveal_strlit("regFun3");
    reveal_strlit("regRoot");
    reveal_strlit("regRoot2");
    reveal_strlit("regSquare2");
    reveal_strlit("regStep");
    reveal_strlit("semiLinear");
    reveal_strlit("to_");
    reveal_strlit("valveCharacteristic");
    let t = early_targets(name)[i];
    if starts_with(name, "Magnetic."@) && !starts_with(name, "Modelica."@) {
        assert(name[0] == 'M') by {
            assert(name.take(9)[0] == name[0]);
        }
        assert(name[1] == 'a') by {
            assert(name.take(9)[1] == name[1]);
        }
        assert(name[2] == 'g') by {
            assert(name.take(9)[2] == name[2]);
        }
        assert(name[3] == 'n') by {
            assert(name.take(9)[3] == name[3]);
        }
        assert(name[4] == 'e') by {
            assert(name.take(9)[4] == name[4]);
        }
        assert(name[5] == 't') by {
            assert(name.take(9)[5] == name[5]);
        }
        assert(name[6] == 'i') by {
            assert(name.take(9)[6] == name[6]);
        }
        assert(name[7] == 'c') by {
            assert(name.take(9)[7] == name[7]);
        }
        assert(name[8] == '.') by {
            assert(name.take(9)[8] == name[8]);
        }
        assert forall|l: Seq<char>, k: int| #![trigger starts_with(name, l), name[k]]
            starts_with(name, l) && 0 <= k < l.len() implies l[k] == name[k] by {
            assert(name.take(l.len() as int)[k] == name[k]);
        }
        let m = "Modelica."@ + name;
        assert(m[1] == 'o');
        assert(m[9] == 'M');
        assert(!starts_with(m, "Magnetic."@)) by {
            if starts_with(m, "Magnetic."@) {
                assert(m.take(9)[1] == m[1]);
            }
        }
        assert(!starts_with(m, "Modelica.Fluid.Pipes.BaseClasses.QuadraticTurbulent."@)) by {
            if starts_with(m, "Modelica.Fluid.Pipes.BaseClasses.QuadraticTurbulent."@) {
                assert(m.take(52)[9] == m[9]);
            }
        }
        assert(m != "Modelica.Fluid.Pipes.BaseClasses.QuadraticTurbulent"@) by {
            if m == "Modelica.Fluid.Pipes.BaseClasses.QuadraticTurbulent"@ {
                assert("Modelica.Fluid.Pipes.BaseClasses.QuadraticTurbulent"@[9] == 'F');
            }
        }
        assert(t == m);
    } else if name == "Modelica.Fluid.Pipes.BaseClasses.QuadraticTurbulent"@ || starts_with(name, "Modelica.Fluid.Pipes.BaseClasses.QuadraticTurbulent."@) {
        if name == "Modelica.Fluid.Pipes.BaseClasses.QuadraticTurbulent"@ {
            assert(name[9] == 'F');
            assert(name[33] == 'Q');
        } else {
        assert(name[0] == 'M') by {
            assert(name.take(52)[0] == name[0]);
        }
        assert(name[1] == 'o') by {
            assert(name.take(52)[1] == name[1]);
        }
        assert(name[2] == 'd') by {
            assert(name.take(52)[2] == name[2]);
        }
        assert(name[3] == 'e') by {
            assert(name.take(52)[3] == name[3]);
        }
        assert(name[4] == 'l') by {
            assert(name.take(52)[4] == name[4]);
        }
        assert(name[5] == 'i') by {
            assert(name.take(52)[5] == name[5]);
        }
        assert(name[6] == 'c') by {
            assert(name.take(52)[6] == name[6]);
        }
        assert(name[7] == 'a') by {
            assert(name.take(52)[7] == name[7]);
        }
        assert(name[8] == '.') by {
            assert(name.take(52)[8] == name[8]);
        }
        assert(name[9] == 'F') by {
            assert(name.take(52)[9] == name[9]);
        }
        assert(name[10] == 'l') by {
            assert(name.take(52)[10] == name[10]);
        }
        assert(name[11] == 'u') by {
            assert(name.take(52)[11] == name[11]);
        }
        assert(name[12] == 'i') by {
            assert(name.take(52)[12] == name[12]);
        }
        assert(name[13] == 'd') by {
            assert(name.take(52)[13] == name[13]);
        }
        assert(name[14] == '.') by {
            assert(name.take(52)[14] == name[14]);
        }
        assert(name[15] == 'P') by {
            assert(name.take(52)[15] == name[15]);
        }
        assert(name[16] == 'i') by {
            assert(name.take(52)[16] == name[16]);
        }
        assert(name[17] == 'p') by {
            assert(name.take(52)[17] == name[17]);
        }
        assert(name[18] == 'e') by {
            assert(name.take(52)[18] == name[18]);
        }
        assert(name[19] == 's') by {
            assert(name.take(52)[19] == name[19]);
        }
        assert(name[20] == '.') by {
            assert(name.take(52)[20] == name[20]);
        }
        assert(name[21] == 'B') by {
            assert(name.take(52)[21] == name[21]);
        }
        assert(name[22] == 'a') by {
            assert(name.take(52)[22] == name[22]);
        }
        assert(name[23] == 's') by {
            assert(name.take(52)[23] == name[23]);
        }
        assert(name[24] == 'e') by {
            assert(name.take(52)[24] == name[24]);
        }
        assert(name[25] == 'C') by {
            assert(name.take(52)[25] == name[25]);
        }
        assert(name[26] == 'l') by {
            assert(name.take(52)[26] == name[26]);
        }
        assert(name[27] == 'a') by {
            assert(name.take(52)[27] == name[27]);
        }
        assert(name[28] == 's') by {
            assert(name.take(52)[28] == name[28]);
        }
        assert(name[29] == 's') by {
            assert(name.take(52)[29] == name[29]);
        }
        assert(name[30] == 'e') by {
            assert(name.take(52)[30] == name[30]);
        }
        assert(name[31] == 's') by {
            assert(name.take(52)[31] == name[31]);
        }
        assert(name[32] == '.') by {
            assert(name.take(52)[32] == name[32]);
        }
        assert(name[33] == 'Q') by {
            assert(name.take(52)[33] == name[33]);
        }
        }
        assert forall|l: Seq<char>, k: int| #![trigger starts_with(name, l), name[k]]
            starts_with(name, l) && 0 <= k < l.len() implies l[k] == name[k] by {
            assert(name.take(l.len() as int)[k] == name[k]);
        }
        let w = "Modelica.Fluid.Pipes.BaseClasses.WallFriction.QuadraticTurbulent"@ + strip_or_empty(name, "Modelica.Fluid.Pipes.BaseClasses.QuadraticTurbulent"@);
        assert(w[1] == 'o');
        assert(w[33] == 'W');
        assert(!starts_with(w, "Magnetic."@)) by {
            if starts_with(w, "Magnetic."@) {
                assert(w.take(9)[1] == w[1]);
            }
        }
        assert(!starts_with(w, "Modelica.Fluid.Pipes.BaseClasses.QuadraticTurbulent."@)) by {
            if starts_with(w, "Modelica.Fluid.Pipes.BaseClasses.QuadraticTurbulent."@) {
                assert(w.take(52)[33] == w[33]);
            }
        }
        assert(w != "Modelica.Fluid.Pipes.BaseClasses.QuadraticTurbulent"@) by {
            if w == "Modelica.Fluid.Pipes.BaseClasses.QuadraticTurbulent"@ {
                assert("Modelica.Fluid.Pipes.BaseClasses.QuadraticTurbulent"@[33] == 'Q');
            }
        }
        assert(t == w);
    } else {
        assert(alias_end(t));
        lemma_alias_end_is_plain(t);
    }
}

/// Depth along a chain of early-alias steps drops by one at least at each step.
proof fn lemma_chain_depth(chain: Seq<Seq<char>>, n: int)
    requires
        1 <= n < chain.len(),
        forall|j: int| 0 <= j < chain.len() - 1 ==> #[trigger] early_targets(chain[j]).contains(chain[j + 1]),
    ensures
        alias_depth(chain[n]) <= alias_depth(chain[0]) - n,
    decreases n,
{
    let ts = early_targets(chain[n - 1]);
    assert(early_targets(chain[n - 1]).contains(chain[(n - 1) + 1]));
    assert((n - 1) + 1 == n);
    assert(ts.contains(chain[n]));
    let j = choose|j: int| 0 <= j < ts.len() && ts[j] == chain[n];
    lemma_alias_depth_drops(chain[n - 1], j);
    if n > 1 {
        lemma_chain_depth(chain, n - 1);
    }
}

/// Early aliases never lead back to where they started: along a chain of names,
/// each an early-alias target of the one before, the last name is not the
/// first. So following early aliases always ends.
pub proof fn law_early_aliases_never_cycle(chain: Seq<Seq<char>>)
    requires
        chain.len() >= 2,
        forall|j: int| 0 <= j < chain.len() - 1 ==> #[trigger] early_targets(chain[j]).contains(chain[j + 1]),
    ensures
        chain[chain.len() - 1] != chain[0],
{
    lemma_chain_depth(chain, chain.len() - 1);
}

} // verus!
