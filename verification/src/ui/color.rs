use vstd::prelude::*;

use crate::config::ThemeName;

verus! {

/// The graphs that have a colour scheme of their own.
#[derive(Debug, Clone, Copy, PartialEq, Eq, Structural)]
pub enum Palette {
    Cpu,
    Memory,
}

/// A terminal colour: one of the named ones, or red, green and blue.
#[derive(Debug, Clone, Copy, PartialEq, Eq, Structural)]
pub enum Tone {
    Rgb(u8, u8, u8),
    White,
    Black,
    DarkGray,
    LightCyan,
    LightGreen,
}

/// A colour at a point of a gradient: at `position` percent of the load
/// the gradient has the colour `(red, green, blue)`.
#[derive(Debug, Clone, Copy, PartialEq, Eq, Structural)]
pub struct GradientStop {
    pub position: u8,
    pub red: u8,
    pub green: u8,
    pub blue: u8,
}

/// The stop at `position` with the given colour.
pub open spec fn stop(position: u8, red: u8, green: u8, blue: u8) -> GradientStop {
    GradientStop { position, red, green, blue }
}

/// The gradient a graph of `palette` is coloured with under `theme`.
pub open spec fn palette_gradient(theme: ThemeName, palette: Palette) -> Seq<GradientStop> {
    match (theme, palette) {
        (ThemeName::Ocean, Palette::Cpu) => seq![
            stop(0, 28, 210, 230),
            stop(45, 70, 230, 160),
            stop(75, 245, 210, 85),
            stop(100, 255, 95, 105),
        ],
        (ThemeName::Ocean, Palette::Memory) => seq![
            stop(0, 95, 220, 155),
            stop(55, 110, 220, 235),
            stop(80, 245, 205, 90),
            stop(100, 255, 110, 95),
        ],
        (ThemeName::Ember, Palette::Cpu) => seq![
            stop(0, 255, 170, 110),
            stop(40, 255, 126, 95),
            stop(75, 245, 84, 84),
            stop(100, 186, 49, 49),
        ],
        (ThemeName::Ember, Palette::Memory) => seq![
            stop(0, 250, 206, 97),
            stop(50, 255, 151, 83),
            stop(80, 255, 101, 101),
            stop(100, 180, 64, 64),
        ],
        (ThemeName::Mono, Palette::Cpu) => seq![
            stop(0, 110, 110, 110),
            stop(50, 170, 170, 170),
            stop(80, 220, 220, 220),
            stop(100, 255, 255, 255),
        ],
        (ThemeName::Mono, Palette::Memory) => seq![
            stop(0, 110, 110, 110),
            stop(50, 170, 170, 170),
            stop(80, 220, 220, 220),
            stop(100, 255, 255, 255),
        ],
        (ThemeName::GruvboxDark, Palette::Cpu) => seq![
            stop(0, 184, 187, 38),
            stop(45, 250, 189, 47),
            stop(78, 254, 128, 25),
            stop(100, 204, 36, 29),
        ],
        (ThemeName::GruvboxDark, Palette::Memory) => seq![
            stop(0, 131, 165, 152),
            stop(35, 142, 192, 124),
            stop(65, 250, 189, 47),
            stop(85, 254, 128, 25),
            stop(100, 251, 73, 52),
        ],
    }
}

/// The gradient the load bars and figures are coloured with under `theme`.
pub open spec fn load_gradient(theme: ThemeName) -> Seq<GradientStop> {
    match theme {
        ThemeName::Ocean => seq![
            stop(0, 62, 220, 235),
            stop(55, 82, 235, 145),
            stop(80, 245, 205, 85),
            stop(100, 255, 90, 100),
        ],
        ThemeName::Ember => seq![
            stop(0, 255, 194, 106),
            stop(50, 255, 132, 92),
            stop(80, 241, 83, 83),
            stop(100, 176, 52, 52),
        ],
        ThemeName::Mono => seq![
            stop(0, 120, 120, 120),
            stop(50, 180, 180, 180),
            stop(80, 225, 225, 225),
            stop(100, 255, 255, 255),
        ],
        ThemeName::GruvboxDark => seq![
            stop(0, 184, 187, 38),
            stop(40, 250, 189, 47),
            stop(70, 254, 128, 25),
            stop(100, 251, 73, 52),
        ],
    }
}

/// A gradient runs from 0 to 100 percent through strictly increasing
/// positions, so every stretch between two stops has a length.
pub open spec fn well_formed_gradient(stops: Seq<GradientStop>) -> bool {
    &&& stops.len() >= 2
    &&& stops[0].position == 0
    &&& stops.last().position == 100
    &&& forall|i: int, j: int| 0 <= i < j < stops.len() ==> #[trigger] stops[i].position < #[trigger] stops[j].position
}

/// Every gradient of every theme is well formed.
pub proof fn lemma_gradients_well_formed(theme: ThemeName, palette: Palette)
    ensures
        well_formed_gradient(palette_gradient(theme, palette)),
        well_formed_gradient(load_gradient(theme)),
{
}

/// The CPU and memory graphs share one gradient in the monochrome theme
/// and start from different colours in every other theme.
pub proof fn lemma_cpu_and_memory_gradients(theme: ThemeName)
    ensures
        theme == ThemeName::Mono ==> palette_gradient(theme, Palette::Cpu) == palette_gradient(theme, Palette::Memory),
        theme != ThemeName::Mono ==> palette_gradient(theme, Palette::Cpu)[0] != palette_gradient(
            theme,
            Palette::Memory,
        )[0],
{
}

/// Every gradient, stop by stop, as `(position, red, green, blue)`.
pub proof fn lemma_gradient_tables()
    ensures
        palette_gradient(ThemeName::Ocean, Palette::Cpu) == seq![
            GradientStop { position: 0, red: 28, green: 210, blue: 230 },
            GradientStop { position: 45, red: 70, green: 230, blue: 160 },
            GradientStop { position: 75, red: 245, green: 210, blue: 85 },
            GradientStop { position: 100, red: 255, green: 95, blue: 105 },
        ],
        palette_gradient(ThemeName::Ocean, Palette::Memory) == seq![
            GradientStop { position: 0, red: 95, green: 220, blue: 155 },
            GradientStop { position: 55, red: 110, green: 220, blue: 235 },
            GradientStop { position: 80, red: 245, green: 205, blue: 90 },
            GradientStop { position: 100, red: 255, green: 110, blue: 95 },
        ],
        palette_gradient(ThemeName::Ember, Palette::Cpu) == seq![
            GradientStop { position: 0, red: 255, green: 170, blue: 110 },
            GradientStop { position: 40, red: 255, green: 126, blue: 95 },
            GradientStop { position: 75, red: 245, green: 84, blue: 84 },
            GradientStop { position: 100, red: 186, green: 49, blue: 49 },
        ],
        palette_gradient(ThemeName::Ember, Palette::Memory) == seq![
            GradientStop { position: 0, red: 250, green: 206, blue: 97 },
            GradientStop { position: 50, red: 255, green: 151, blue: 83 },
            GradientStop { position: 80, red: 255, green: 101, blue: 101 },
            GradientStop { position: 100, red: 180, green: 64, blue: 64 },
        ],
        palette_gradient(ThemeName::Mono, Palette::Cpu) == seq![
            GradientStop { position: 0, red: 110, green: 110, blue: 110 },
            GradientStop { position: 50, red: 170, green: 170, blue: 170 },
            GradientStop { position: 80, red: 220, green: 220, blue: 220 },
            GradientStop { position: 100, red: 255, green: 255, blue: 255 },
        ],
        palette_gradient(ThemeName::GruvboxDark, Palette::Cpu) == seq![
            GradientStop { position: 0, red: 184, green: 187, blue: 38 },
            GradientStop { position: 45, red: 250, green: 189, blue: 47 },
            GradientStop { position: 78, red: 254, green: 128, blue: 25 },
            GradientStop { position: 100, red: 204, green: 36, blue: 29 },
        ],
        palette_gradient(ThemeName::GruvboxDark, Palette::Memory) == seq![
            GradientStop { position: 0, red: 131, green: 165, blue: 152 },
            GradientStop { position: 35, red: 142, green: 192, blue: 124 },
            GradientStop { position: 65, red: 250, green: 189, blue: 47 },
            GradientStop { position: 85, red: 254, green: 128, blue: 25 },
            GradientStop { position: 100, red: 251, green: 73, blue: 52 },
        ],
        load_gradient(ThemeName::Ocean) == seq![
            GradientStop { position: 0, red: 62, green: 220, blue: 235 },
            GradientStop { position: 55, red: 82, green: 235, blue: 145 },
            GradientStop { position: 80, red: 245, green: 205, blue: 85 },
            GradientStop { position: 100, red: 255, green: 90, blue: 100 },
        ],
        load_gradient(ThemeName::Ember) == seq![
            GradientStop { position: 0, red: 255, green: 194, blue: 106 },
            GradientStop { position: 50, red: 255, green: 132, blue: 92 },
            GradientStop { position: 80, red: 241, green: 83, blue: 83 },
            GradientStop { position: 100, red: 176, green: 52, blue: 52 },
        ],
        load_gradient(ThemeName::Mono) == seq![
            GradientStop { position: 0, red: 120, green: 120, blue: 120 },
            GradientStop { position: 50, red: 180, green: 180, blue: 180 },
            GradientStop { position: 80, red: 225, green: 225, blue: 225 },
            GradientStop { position: 100, red: 255, green: 255, blue: 255 },
        ],
        load_gradient(ThemeName::GruvboxDark) == seq![
            GradientStop { position: 0, red: 184, green: 187, blue: 38 },
            GradientStop { position: 40, red: 250, green: 189, blue: 47 },
            GradientStop { position: 70, red: 254, green: 128, blue: 25 },
            GradientStop { position: 100, red: 251, green: 73, blue: 52 },
        ],
{
}

impl Palette {
    /// The stops of the gradient this graph is drawn with under `theme`.
    pub fn stops(self, theme: ThemeName) -> (r: Vec<GradientStop>)
        ensures
            r@ == palette_gradient(theme, self),
    {
        let r = match (theme, self) {
            (ThemeName::Ocean, Palette::Cpu) => vec![
                GradientStop { position: 0, red: 28, green: 210, blue: 230 },
                GradientStop { position: 45, red: 70, green: 230, blue: 160 },
                GradientStop { position: 75, red: 245, green: 210, blue: 85 },
                GradientStop { position: 100, red: 255, green: 95, blue: 105 },
            ],
            (ThemeName::Ocean, Palette::Memory) => vec![
                GradientStop { position: 0, red: 95, green: 220, blue: 155 },
                GradientStop { position: 55, red: 110, green: 220, blue: 235 },
                GradientStop { position: 80, red: 245, green: 205, blue: 90 },
                GradientStop { position: 100, red: 255, green: 110, blue: 95 },
            ],
            (ThemeName::Ember, Palette::Cpu) => vec![
                GradientStop { position: 0, red: 255, green: 170, blue: 110 },
                GradientStop { position: 40, red: 255, green: 126, blue: 95 },
                GradientStop { position: 75, red: 245, green: 84, blue: 84 },
                GradientStop { position: 100, red: 186, green: 49, blue: 49 },
            ],
            (ThemeName::Ember, Palette::Memory) => vec![
                GradientStop { position: 0, red: 250, green: 206, blue: 97 },
                GradientStop { position: 50, red: 255, green: 151, blue: 83 },
                GradientStop { position: 80, red: 255, green: 101, blue: 101 },
                GradientStop { position: 100, red: 180, green: 64, blue: 64 },
            ],
            (ThemeName::Mono, Palette::Cpu) => vec![
                GradientStop { position: 0, red: 110, green: 110, blue: 110 },
                GradientStop { position: 50, red: 170, green: 170, blue: 170 },
                GradientStop { position: 80, red: 220, green: 220, blue: 220 },
                GradientStop { position: 100, red: 255, green: 255, blue: 255 },
            ],
            (ThemeName::Mono, Palette::Memory) => vec![
                GradientStop { position: 0, red: 110, green: 110, blue: 110 },
                GradientStop { position: 50, red: 170, green: 170, blue: 170 },
                GradientStop { position: 80, red: 220, green: 220, blue: 220 },
                GradientStop { position: 100, red: 255, green: 255, blue: 255 },
            ],
            (ThemeName::GruvboxDark, Palette::Cpu) => vec![
                GradientStop { position: 0, red: 184, green: 187, blue: 38 },
                GradientStop { position: 45, red: 250, green: 189, blue: 47 },
                GradientStop { position: 78, red: 254, green: 128, blue: 25 },
                GradientStop { position: 100, red: 204, green: 36, blue: 29 },
            ],
            (ThemeName::GruvboxDark, Palette::Memory) => vec![
                GradientStop { position: 0, red: 131, green: 165, blue: 152 },
                GradientStop { position: 35, red: 142, green: 192, blue: 124 },
                GradientStop { position: 65, red: 250, green: 189, blue: 47 },
                GradientStop { position: 85, red: 254, green: 128, blue: 25 },
                GradientStop { position: 100, red: 251, green: 73, blue: 52 },
            ],
        };
        r
    }

    /// The colour of this graph's panel accents.
    pub fn accent(self) -> (r: Tone)
        ensures
            r == (match self {
                Palette::Cpu => Tone::LightCyan,
                Palette::Memory => Tone::LightGreen,
            }),
    {
        match self {
            Palette::Cpu => Tone::LightCyan,
            Palette::Memory => Tone::LightGreen,
        }
    }
}

/// The stops of the gradient of load bars and figures under `theme`.
pub fn load_stops(theme: ThemeName) -> (r: Vec<GradientStop>)
    ensures
        r@ == load_gradient(theme),
{
    let r = match theme {
        ThemeName::Ocean => vec![
            GradientStop { position: 0, red: 62, green: 220, blue: 235 },
            GradientStop { position: 55, red: 82, green: 235, blue: 145 },
            GradientStop { position: 80, red: 245, green: 205, blue: 85 },
            GradientStop { position: 100, red: 255, green: 90, blue: 100 },
        ],
        ThemeName::Ember => vec![
            GradientStop { position: 0, red: 255, green: 194, blue: 106 },
            GradientStop { position: 50, red: 255, green: 132, blue: 92 },
            GradientStop { position: 80, red: 241, green: 83, blue: 83 },
            GradientStop { position: 100, red: 176, green: 52, blue: 52 },
        ],
        ThemeName::Mono => vec![
            GradientStop { position: 0, red: 120, green: 120, blue: 120 },
            GradientStop { position: 50, red: 180, green: 180, blue: 180 },
            GradientStop { position: 80, red: 225, green: 225, blue: 225 },
            GradientStop { position: 100, red: 255, green: 255, blue: 255 },
        ],
        ThemeName::GruvboxDark => vec![
            GradientStop { position: 0, red: 184, green: 187, blue: 38 },
            GradientStop { position: 40, red: 250, green: 189, blue: 47 },
            GradientStop { position: 70, red: 254, green: 128, blue: 25 },
            GradientStop { position: 100, red: 251, green: 73, blue: 52 },
        ],
    };
    r
}

/// The background colour of `theme`.
pub open spec fn background_of(theme: ThemeName) -> Tone {
    match theme {
        ThemeName::GruvboxDark => Tone::Rgb(20, 18, 16),
        ThemeName::Ocean => Tone::Rgb(10, 14, 20),
        ThemeName::Ember => Tone::Rgb(18, 12, 10),
        ThemeName::Mono => Tone::Rgb(10, 10, 10),
    }
}

/// The colour the screen is cleared to under `theme`.
pub fn theme_background(theme: ThemeName) -> (r: Tone)
    ensures
        r == background_of(theme),
{
    match theme {
        ThemeName::GruvboxDark => Tone::Rgb(20, 18, 16),
        ThemeName::Ocean => Tone::Rgb(10, 14, 20),
        ThemeName::Ember => Tone::Rgb(18, 12, 10),
        ThemeName::Mono => Tone::Rgb(10, 10, 10),
    }
}

/// The colour of panel borders.
pub fn neutral_border() -> (r: Tone)
    ensures
        r == Tone::Rgb(128, 132, 138),
{
    Tone::Rgb(128, 132, 138)
}

} // verus!
