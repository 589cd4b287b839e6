//! Types of the Open Fixture Library format that fixture definitions are
//! read from: the keyword and unit entities of capabilities. Values written
//! with a unit (`"10Hz"`, `"50%"`) are kept as their text.
use vstd::prelude::*;

verus! {

/// Where a capability appears in a menu.
#[derive(Debug, Clone, Copy, PartialEq, Eq, Structural, Hash)]
pub enum MenuClick {
    Start,
    Center,
    End,
    Hidden,
}

/// The color of a color-intensity capability.
#[derive(Debug, Clone, Copy, PartialEq, Eq, Structural, Hash)]
pub enum ColorIntensityColor {
    Red,
    Green,
    Blue,
    Cyan,
    Magenta,
    Yellow,
    Amber,
    White,
    WarmWhite,
    ColdWhite,
    UV,
    Lime,
    Indigo,
}

/// What a shutter capability does.
#[derive(Debug, Clone, Copy, PartialEq, Eq, Structural, Hash)]
pub enum ShutterEffect {
    Open,
    Closed,
    Strobe,
    Pulse,
    RampUp,
    RampDown,
    RampUpDown,
    Lightning,
    Spikes,
    Burst,
}

/// The kind of fog.
#[derive(Debug, Clone, Copy, PartialEq, Eq, Structural, Hash)]
pub enum FogType {
    Fog,
    Haze,
}

/// What shakes in a wheel-shake capability.
#[derive(Debug, Clone, Copy, PartialEq, Eq, Structural, Hash)]
pub enum ShakingTarget {
    Wheel,
    Slot,
}

/// A blade, by position or by number.
#[derive(Debug, Clone, Copy, PartialEq, Eq, Structural)]
pub enum Blade {
    Named(BladePosition),
    Numbered(u32),
}

/// The position of a named blade.
#[derive(Debug, Clone, Copy, PartialEq, Eq, Structural, Hash)]
pub enum BladePosition {
    Top,
    Right,
    Bottom,
    Left,
}

/// One wheel or several, by name.
#[derive(Debug, Clone)]
pub enum WheelRef {
    Single(String),
    Multiple(Vec<String>),
}

/// Fields that most capabilities may carry.
#[derive(Debug)]
pub struct CommonFields {
    pub comment: Option<String>,
    pub help_wanted: Option<String>,
    pub menu_click: Option<MenuClick>,
    /// Switching channel aliases, each mapped to the key of a channel.
    pub switch_channels: Option<Vec<(String, String)>>,
}

/// A preset of an effect capability.
#[derive(Debug, Clone, Copy, PartialEq, Eq, Structural, Hash)]
pub enum EffectPreset {
    ColorJump,
    ColorFade,
}

/// Whether a power connector is an input, an output, or both.
#[derive(Debug, Clone, Copy, PartialEq, Eq, Structural, Hash)]
pub enum PowerConnectorType {
    InputOnly,
    OutputOnly,
    InputAndOutput,
}

/// A speed: in Hz, in beats per minute, in percent, or a keyword.
#[derive(Debug, Clone)]
pub enum Speed {
    Hertz(String),
    Bpm(String),
    Percent(String),
    Keyword(SpeedKeyword),
}

#[derive(Debug, Clone, Copy, PartialEq, Eq, Structural, Hash)]
pub enum SpeedKeyword {
    Fast,
    Slow,
    Stop,
    SlowReverse,
    FastReverse,
}

/// A rotation speed: in Hz, in rounds per minute, in percent, or a keyword.
#[derive(Debug, Clone)]
pub enum RotationSpeed {
    Hertz(String),
    Rpm(String),
    Percent(String),
    Keyword(RotationSpeedKeyword),
}

#[derive(Debug, Clone, Copy, PartialEq, Eq, Structural, Hash)]
pub enum RotationSpeedKeyword {
    FastCw,
    SlowCw,
    Stop,
    SlowCcw,
    FastCcw,
}

/// A time: in seconds, in milliseconds, in percent, or a keyword.
#[derive(Debug, Clone)]
pub enum Time {
    Seconds(String),
    MilliSeconds(String),
    Percent(String),
    Keyword(TimeKeyword),
}

#[derive(Debug, Clone, Copy, PartialEq, Eq, Structural, Hash)]
pub enum TimeKeyword {
    Instant,
    Short,
    Long,
}

/// A distance: in meters, in percent, or a keyword.
#[derive(Debug, Clone)]
pub enum Distance {
    Meters(String),
    Percent(String),
    Keyword(DistanceKeyword),
}

#[derive(Debug, Clone, Copy, PartialEq, Eq, Structural, Hash)]
pub enum DistanceKeyword {
    Near,
    Far,
}

/// A brightness: in lumens, in percent, or a keyword.
#[derive(Debug, Clone)]
pub enum Brightness {
    Lumens(String),
    Percent(String),
    Keyword(BrightnessKeyword),
}

#[derive(Debug, Clone, Copy, PartialEq, Eq, Structural, Hash)]
pub enum BrightnessKeyword {
    Off,
    Dark,
    Bright,
}

/// A color temperature: in Kelvin, in percent, or a keyword.
#[derive(Debug, Clone)]
pub enum ColorTemperature {
    Kelvin(String),
    Percent(String),
    Keyword(ColorTemperatureKeyword),
}

#[derive(Debug, Clone, Copy, PartialEq, Eq, Structural, Hash)]
pub enum ColorTemperatureKeyword {
    Warm,
    Cto,
    Default,
    Cold,
    Ctb,
}

/// A fog output: in volume per minute, in percent, or a keyword.
#[derive(Debug, Clone)]
pub enum FogOutput {
    VolumePerMinute(String),
    Percent(String),
    Keyword(FogOutputKeyword),
}

#[derive(Debug, Clone, Copy, PartialEq, Eq, Structural, Hash)]
pub enum FogOutputKeyword {
    Off,
    Weak,
    Strong,
}

/// A rotation angle: in degrees or in percent.
#[derive(Debug, Clone)]
pub enum RotationAngle {
    Degrees(String),
    Percent(String),
}

/// A beam angle: in degrees, in percent, or a keyword.
#[derive(Debug, Clone)]
pub enum BeamAngle {
    Degrees(String),
    Percent(String),
    Keyword(BeamAngleKeyword),
}

#[derive(Debug, Clone, Copy, PartialEq, Eq, Structural, Hash)]
pub enum BeamAngleKeyword {
    Closed,
    Narrow,
    Wide,
}

/// A horizontal angle: in degrees, in percent, or a keyword.
#[derive(Debug, Clone)]
pub enum HorizontalAngle {
    Degrees(String),
    Percent(String),
    Keyword(HorizontalAngleKeyword),
}

#[derive(Debug, Clone, Copy, PartialEq, Eq, Structural, Hash)]
pub enum HorizontalAngleKeyword {
    Left,
    Center,
    Right,
}

/// A vertical angle: in degrees, in percent, or a keyword.
#[derive(Debug, Clone)]
pub enum VerticalAngle {
    Degrees(String),
    Percent(String),
    Keyword(VerticalAngleKeyword),
}

#[derive(Debug, Clone, Copy, PartialEq, Eq, Structural, Hash)]
pub enum VerticalAngleKeyword {
    Top,
    Center,
    Bottom,
}

/// A swing angle: in degrees, in percent, or a keyword.
#[derive(Debug, Clone)]
pub enum SwingAngle {
    Degrees(String),
    Percent(String),
    Keyword(SwingAngleKeyword),
}

#[derive(Debug, Clone, Copy, PartialEq, Eq, Structural, Hash)]
pub enum SwingAngleKeyword {
    Closed,
    Narrow,
    Wide,
}

#[derive(Debug, Clone, Copy, PartialEq, Eq, Structural, Hash)]
pub enum ParameterKeyword {
    Off,
    Low,
    High,
    Slow,
    Fast,
    Small,
    Big,
    Instant,
    Short,
    Long,
}

/// A percentage, or a keyword.
#[derive(Debug, Clone)]
pub enum Percent {
    Percent(String),
    Keyword(PercentKeyword),
}

#[derive(Debug, Clone, Copy, PartialEq, Eq, Structural, Hash)]
pub enum PercentKeyword {
    Off,
    Low,
    High,
}

/// How far something is inserted: a percentage, or a keyword.
#[derive(Debug, Clone)]
pub enum Insertion {
    Percent(String),
    Keyword(InsertionKeyword),
}

#[derive(Debug, Clone, Copy, PartialEq, Eq, Structural, Hash)]
pub enum InsertionKeyword {
    Out,
    In,
}

/// How far an iris is open: a percentage, or a keyword.
#[derive(Debug, Clone)]
pub enum IrisPercent {
    Percent(String),
    Keyword(IrisPercentKeyword),
}

#[derive(Debug, Clone, Copy, PartialEq, Eq, Structural, Hash)]
pub enum IrisPercentKeyword {
    Closed,
    Open,
}

} // verus!
