//! The single-light primitives and their capability model.
//!
//! A light is one of a closed set of kinds: color-only, color-and-temperature,
//! or temperature-only. Capabilities a kind lacks read as defaults and are
//! ignored on writes; transparency applies to every kind.

use vstd::prelude::*;

use crate::blackbody::temp_to_color;
use crate::color::Color;

verus! {

/// The result of reading an aggregate property over a set of lights: either
/// one agreed value, or `Mixed` when the lights disagree.
#[derive(Clone, Copy, Debug, PartialEq, Eq, Structural)]
pub enum Res {
    Color(Color),
    Temp(u32),
    Transparency(u8),
    Mixed,
}

/// A color-only light.
#[derive(Clone, Copy, Debug, PartialEq, Eq, Structural)]
pub struct RgbLight {
    pub color: Color,
    pub transparency: u8,
}

/// A light with both a color and a color temperature.
#[derive(Clone, Copy, Debug, PartialEq, Eq, Structural)]
pub struct RgbtLight {
    pub color: Color,
    pub temp: u32,
    pub transparency: u8,
}

/// A temperature-only light.
#[derive(Clone, Copy, Debug, PartialEq, Eq, Structural)]
pub struct TLight {
    pub temp: u32,
    pub transparency: u8,
}

/// A single light of any kind.
#[derive(Clone, Copy, Debug, PartialEq, Eq, Structural)]
pub enum Light {
    RGB(RgbLight),
    RGBT(RgbtLight),
    T(TLight),
}

/// Reading and writing a color.
pub trait ColorT: Sized {
    /// The color the value currently shows.
    spec fn spec_color(&self) -> Color;

    /// The value after its color is set to `color`.
    spec fn spec_with_color(&self, color: Color) -> Self;

    /// Set the color; a no-op on values without a color capability.
    fn set_color(&mut self, color: Color)
        ensures
            *final(self) == old(self).spec_with_color(color),
    ;

    /// Read the color; a default on values without a color capability.
    fn get_color(&self) -> (c: Color)
        ensures
            c == self.spec_color(),
    ;
}

/// Reading and writing a color temperature.
pub trait TempT: Sized {
    /// The temperature the value currently has.
    spec fn spec_temp(&self) -> u32;

    /// The value after its temperature is set to `temp`.
    spec fn spec_with_temp(&self, temp: u32) -> Self;

    /// Set the temperature; a no-op on values without that capability.
    fn set_temp(&mut self, temp: u32)
        ensures
            *final(self) == old(self).spec_with_temp(temp),
    ;

    /// Read the temperature; a default on values without that capability.
    fn get_temp(&self) -> (t: u32)
        ensures
            t == self.spec_temp(),
    ;
}

/// Reading and writing transparency, which every light kind has.
pub trait TranspT: Sized {
    /// The transparency the value currently has.
    spec fn spec_transp(&self) -> u8;

    /// The value after its transparency is set to `transp`.
    spec fn spec_with_transp(&self, transp: u8) -> Self;

    /// Set the transparency.
    fn set_transp(&mut self, transp: u8)
        ensures
            *final(self) == old(self).spec_with_transp(transp),
    ;

    /// Read the transparency.
    fn get_transp(&self) -> (t: u8)
        ensures
            t == self.spec_transp(),
    ;
}

impl ColorT for Light {
    open spec fn spec_color(&self) -> Color {
        match *self {
            Light::RGB(s) => s.color,
            Light::RGBT(s) => s.color,
            Light::T(_) => Color { red: 0, green: 0, blue: 0 },
        }
    }

    open spec fn spec_with_color(&self, color: Color) -> Light {
        match *self {
            Light::RGB(s) => Light::RGB(RgbLight { color, ..s }),
            Light::RGBT(s) => Light::RGBT(RgbtLight { color, ..s }),
            Light::T(s) => Light::T(s),
        }
    }

    fn set_color(&mut self, color: Color) {
        match self {
            Light::RGB(s) => s.color = color,
            Light::RGBT(s) => s.color = color,
            _ => (),
        }
    }

    fn get_color(&self) -> Color {
        match self {
            Light::RGB(s) => s.color,
            Light::RGBT(s) => s.color,
            _ => Color::default(),
        }
    }
}

impl TempT for Light {
    open spec fn spec_temp(&self) -> u32 {
        match *self {
            Light::RGB(_) => 0,
            Light::RGBT(s) => s.temp,
            Light::T(s) => s.temp,
        }
    }

    open spec fn spec_with_temp(&self, temp: u32) -> Light {
        match *self {
            Light::RGB(s) => Light::RGB(s),
            Light::RGBT(s) => Light::RGBT(RgbtLight { temp, ..s }),
            Light::T(s) => Light::T(TLight { temp, ..s }),
        }
    }

    fn set_temp(&mut self, temp: u32) {
        match self {
            Light::RGBT(s) => s.temp = temp,
            Light::T(s) => s.temp = temp,
            _ => (),
        }
    }

    fn get_temp(&self) -> u32 {
        match self {
            Light::RGBT(s) => s.temp,
            Light::T(s) => s.temp,
            _ => 0,
        }
    }
}

impl TranspT for Light {
    open spec fn spec_transp(&self) -> u8 {
        match *self {
            Light::RGB(s) => s.transparency,
            Light::RGBT(s) => s.transparency,
            Light::T(s) => s.transparency,
        }
    }

    open spec fn spec_with_transp(&self, transp: u8) -> Light {
        match *self {
            Light::RGB(s) => Light::RGB(RgbLight { transparency: transp, ..s }),
            Light::RGBT(s) => Light::RGBT(RgbtLight { transparency: transp, ..s }),
            Light::T(s) => Light::T(TLight { transparency: transp, ..s }),
        }
    }

    fn set_transp(&mut self, transp: u8) {
        match self {
            Light::RGB(s) => s.transparency = transp,
            Light::RGBT(s) => s.transparency = transp,
            Light::T(s) => s.transparency = transp,
        }
    }

    fn get_transp(&self) -> u8 {
        match self {
            Light::RGB(s) => s.transparency,
            Light::RGBT(s) => s.transparency,
            Light::T(s) => s.transparency,
        }
    }
}

impl Default for RgbLight {
    /// A color-only light that is black and fully opaque.
    fn default() -> (l: RgbLight)
        ensures
            l == (RgbLight { color: Color { red: 0, green: 0, blue: 0 }, transparency: 0 }),
    {
        RgbLight { color: Color::black(), transparency: 0 }
    }
}

impl Default for RgbtLight {
    /// A color-and-temperature light with every field zeroed.
    fn default() -> (l: RgbtLight)
        ensures
            l == (RgbtLight {
                color: Color { red: 0, green: 0, blue: 0 },
                temp: 0,
                transparency: 0,
            }),
    {
        RgbtLight { color: Color::black(), temp: 0, transparency: 0 }
    }
}

impl Default for TLight {
    /// A temperature-only light with every field zeroed.
    fn default() -> (l: TLight)
        ensures
            l == (TLight { temp: 0, transparency: 0 }),
    {
        TLight { temp: 0, transparency: 0 }
    }
}

impl RgbLight {
    /// A one-cell terminal rendering of this light's color.
    pub fn as_string(&self) -> String {
        self.color.as_string()
    }

    /// A default color-only light, wrapped as a `Light`.
    pub fn default_enum() -> (l: Light)
        ensures
            l == Light::RGB(RgbLight { color: Color { red: 0, green: 0, blue: 0 }, transparency: 0 }),
    {
        Light::RGB(RgbLight::default())
    }
}

impl RgbtLight {
    /// A one-cell terminal rendering of this light's color.
    pub fn as_string(&self) -> String {
        self.color.as_string()
    }

    /// A default color-and-temperature light, wrapped as a `Light`.
    pub fn default_enum() -> (l: Light)
        ensures
            l == Light::RGBT(RgbtLight {
                color: Color { red: 0, green: 0, blue: 0 },
                temp: 0,
                transparency: 0,
            }),
    {
        Light::RGBT(RgbtLight::default())
    }
}

impl TLight {
    /// A one-cell terminal rendering of the approximate color of this light's
    /// temperature.
    pub fn as_string(&self) -> String {
        temp_to_color(self.temp).as_string()
    }

    /// A default temperature-only light, wrapped as a `Light`.
    pub fn default_enum() -> (l: Light)
        ensures
            l == Light::T(TLight { temp: 0, transparency: 0 }),
    {
        Light::T(TLight::default())
    }
}

impl Light {
    /// The light after a `clear`: color black, temperature 0, transparency
    /// 255, on whichever of those capabilities the kind has.
    pub open spec fn spec_cleared(&self) -> Light {
        self.spec_with_color(Color { red: 0, green: 0, blue: 0 }).spec_with_temp(0)
            .spec_with_transp(255)
    }

    /// Reset the light: black, temperature 0, transparency 255. The kind is
    /// kept; capabilities the kind lacks stay at their defaults, so after a
    /// clear every capability reads as its reset value.
    pub fn clear(&mut self)
        ensures
            *final(self) == old(self).spec_cleared(),
            final(self).spec_color() == (Color { red: 0, green: 0, blue: 0 }),
            final(self).spec_temp() == 0u32,
            final(self).spec_transp() == 255u8,
    {
        self.set_color(Color::new(0, 0, 0));
        self.set_temp(0);
        self.set_transp(255);
    }

    /// A one-cell terminal rendering of the light.
    pub fn as_string(&self) -> String {
        match self {
            Light::RGB(x) => x.as_string(),
            Light::RGBT(x) => x.as_string(),
            Light::T(x) => x.as_string(),
        }
    }
}

} // verus!
