//! Composite lighting devices: strips, bulbs and bulb groups.
//!
//! Every composite exposes an ordered sequence of single lights, a name, and
//! structural synchronization against a peer of the same kind. Dispatch over
//! the device kinds is by variant match on the closed sum type
//! [`LightingTypes`].
//!
//! An aggregate read over a device's lights returns the shared value
//! whenever all of them — one or many — agree, and `Mixed` only when two
//! disagree; an empty device reads as the type-appropriate zero default, not
//! as `Mixed`.

use vstd::prelude::*;

use crate::color::Color;
use crate::light_primitive::{ColorT, Light, Res, RgbtLight, TempT, TranspT};

verus! {

// ---------------------------------------------------------------------------
// Mathematical views of the composite devices.
// ---------------------------------------------------------------------------

/// The abstract value of a [`LightStrip`].
#[verifier::ext_equal]
pub ghost struct StripView {
    pub name: Seq<char>,
    pub pin: u8,
    pub length: usize,
    pub lights: Seq<Light>,
    pub template: Light,
}

/// The abstract value of a [`Bulb`].
#[verifier::ext_equal]
pub ghost struct BulbView {
    pub name: Seq<char>,
    pub ip: Seq<char>,
    pub light: Light,
}

/// The abstract value of a [`BulbGroup`].
#[verifier::ext_equal]
pub ghost struct GroupView {
    pub name: Seq<char>,
    pub bulbs: Seq<BulbView>,
}

/// The abstract value of a [`LightingTypes`] device.
pub ghost enum EntityView {
    Strip(StripView),
    Bulb(BulbView),
    Group(GroupView),
}

impl StripView {
    /// A strip holds exactly `length` lights.
    pub open spec fn wf(self) -> bool {
        self.lights.len() == self.length
    }

    /// The strip resized to `n` lights: shrinking truncates from the end,
    /// growing appends copies of the element template.
    pub open spec fn resized(self, n: usize) -> StripView {
        StripView {
            length: n,
            lights: if n <= self.lights.len() {
                self.lights.take(n as int)
            } else {
                self.lights + Seq::new((n - self.lights.len()) as nat, |i: int| self.template)
            },
            ..self
        }
    }

    /// Per-field structural synchronization against a canonical strip: name,
    /// pin and length are taken over; the light values are kept, except where
    /// resizing truncates or appends template copies.
    pub open spec fn synced_with(self, canon: StripView) -> StripView {
        (StripView { name: canon.name, pin: canon.pin, ..self }).resized(canon.length)
    }
}

impl BulbView {
    /// The bulb with its single light replaced.
    pub open spec fn with_light(self, l: Light) -> BulbView {
        BulbView { light: l, ..self }
    }

    /// Per-field structural synchronization against a canonical bulb: name
    /// and address are taken over; the light value is kept.
    pub open spec fn synced_with(self, canon: BulbView) -> BulbView {
        BulbView { name: canon.name, ip: canon.ip, light: self.light }
    }
}

impl GroupView {
    /// The ordered lights of the group, one per bulb.
    pub open spec fn lights(self) -> Seq<Light> {
        self.bulbs.map(|i: int, b: BulbView| b.light)
    }

    /// Per-field structural synchronization against a canonical group: only
    /// the name is taken over.
    pub open spec fn synced_with(self, canon: GroupView) -> GroupView {
        GroupView { name: canon.name, bulbs: self.bulbs }
    }
}

impl EntityView {
    /// Whether the underlying representation invariant holds.
    pub open spec fn wf(self) -> bool {
        match self {
            EntityView::Strip(s) => s.wf(),
            EntityView::Bulb(_) => true,
            EntityView::Group(_) => true,
        }
    }

    /// The ordered single lights the device exposes.
    pub open spec fn lights(self) -> Seq<Light> {
        match self {
            EntityView::Strip(s) => s.lights,
            EntityView::Bulb(b) => seq![b.light],
            EntityView::Group(g) => g.lights(),
        }
    }

    /// The device's name.
    pub open spec fn name(self) -> Seq<char> {
        match self {
            EntityView::Strip(s) => s.name,
            EntityView::Bulb(b) => b.name,
            EntityView::Group(g) => g.name,
        }
    }

    /// The device with its name replaced.
    pub open spec fn with_name(self, n: Seq<char>) -> EntityView {
        match self {
            EntityView::Strip(s) => EntityView::Strip(StripView { name: n, ..s }),
            EntityView::Bulb(b) => EntityView::Bulb(BulbView { name: n, ..b }),
            EntityView::Group(g) => EntityView::Group(GroupView { name: n, ..g }),
        }
    }

    /// The device with its light sequence replaced elementwise; the shape and
    /// every other field are kept. Meaningful when `ls` has as many lights as
    /// the device.
    pub open spec fn with_lights(self, ls: Seq<Light>) -> EntityView {
        match self {
            EntityView::Strip(s) => EntityView::Strip(StripView { lights: ls, ..s }),
            EntityView::Bulb(b) => EntityView::Bulb(BulbView { light: ls[0], ..b }),
            EntityView::Group(g) => EntityView::Group(
                GroupView {
                    bulbs: Seq::new(g.bulbs.len(), |i: int| g.bulbs[i].with_light(ls[i])),
                    ..g
                },
            ),
        }
    }

    /// The device after every light is cleared; shape and identity fields are
    /// kept.
    pub open spec fn cleared(self) -> EntityView {
        self.with_lights(Seq::new(self.lights().len(), |i: int| self.lights()[i].spec_cleared()))
    }

    /// The device after every light's color is set.
    pub open spec fn with_color_all(self, color: Color) -> EntityView {
        self.with_lights(
            Seq::new(self.lights().len(), |i: int| self.lights()[i].spec_with_color(color)),
        )
    }

    /// The device after every light's temperature is set.
    pub open spec fn with_temp_all(self, temp: u32) -> EntityView {
        self.with_lights(
            Seq::new(self.lights().len(), |i: int| self.lights()[i].spec_with_temp(temp)),
        )
    }

    /// The device after every light's transparency is set.
    pub open spec fn with_transp_all(self, transp: u8) -> EntityView {
        self.with_lights(
            Seq::new(self.lights().len(), |i: int| self.lights()[i].spec_with_transp(transp)),
        )
    }

    /// The device after the light at `index` has its color set; out-of-range
    /// indices leave the device unchanged.
    pub open spec fn with_color_at(self, color: Color, index: usize) -> EntityView {
        if (index as int) < self.lights().len() {
            self.with_lights(
                self.lights().update(index as int, self.lights()[index as int].spec_with_color(color)),
            )
        } else {
            self
        }
    }

    /// The device after the light at `index` has its temperature set;
    /// out-of-range indices leave the device unchanged.
    pub open spec fn with_temp_at(self, temp: u32, index: usize) -> EntityView {
        if (index as int) < self.lights().len() {
            self.with_lights(
                self.lights().update(index as int, self.lights()[index as int].spec_with_temp(temp)),
            )
        } else {
            self
        }
    }

    /// The device after the light at `index` has its transparency set;
    /// out-of-range indices leave the device unchanged.
    pub open spec fn with_transp_at(self, transp: u8, index: usize) -> EntityView {
        if (index as int) < self.lights().len() {
            self.with_lights(
                self.lights().update(index as int, self.lights()[index as int].spec_with_transp(transp)),
            )
        } else {
            self
        }
    }

    /// Whether the device is bulb-like: a single bulb or a bulb group.
    pub open spec fn is_bulb_like(self) -> bool {
        self is Bulb || self is Group
    }

    /// Structural synchronization against a canonical device of the same
    /// kind; devices of different kinds are left untouched.
    pub open spec fn synced_with(self, canon: EntityView) -> EntityView {
        match (self, canon) {
            (EntityView::Strip(a), EntityView::Strip(b)) => EntityView::Strip(a.synced_with(b)),
            (EntityView::Bulb(a), EntityView::Bulb(b)) => EntityView::Bulb(a.synced_with(b)),
            (EntityView::Group(a), EntityView::Group(b)) => EntityView::Group(a.synced_with(b)),
            _ => self,
        }
    }
}

// ---------------------------------------------------------------------------
// Aggregate reads over a sequence of lights.
// ---------------------------------------------------------------------------

/// The aggregate color of a set of lights: the default for an empty set, the
/// shared value when every light agrees, `Mixed` otherwise.
pub open spec fn agg_color(ls: Seq<Light>) -> Res {
    if ls.len() == 0 {
        Res::Color(Color { red: 0, green: 0, blue: 0 })
    } else if forall|i: int| 0 <= i < ls.len() ==> #[trigger] ls[i].spec_color() == ls[0].spec_color() {
        Res::Color(ls[0].spec_color())
    } else {
        Res::Mixed
    }
}

/// The aggregate temperature of a set of lights, as [`agg_color`].
pub open spec fn agg_temp(ls: Seq<Light>) -> Res {
    if ls.len() == 0 {
        Res::Temp(0)
    } else if forall|i: int| 0 <= i < ls.len() ==> #[trigger] ls[i].spec_temp() == ls[0].spec_temp() {
        Res::Temp(ls[0].spec_temp())
    } else {
        Res::Mixed
    }
}

/// The aggregate transparency of a set of lights, as [`agg_color`].
pub open spec fn agg_transp(ls: Seq<Light>) -> Res {
    if ls.len() == 0 {
        Res::Transparency(0)
    } else if forall|i: int| 0 <= i < ls.len() ==> #[trigger] ls[i].spec_transp() == ls[0].spec_transp() {
        Res::Transparency(ls[0].spec_transp())
    } else {
        Res::Mixed
    }
}

// ---------------------------------------------------------------------------
// The composite devices themselves.
// ---------------------------------------------------------------------------

/// A strip of `length` lights driven over one pin.
#[derive(Debug)]
pub struct LightStrip {
    lights: Vec<Light>,
    light_type: Light,
    pin: u8,
    length: usize,
    name: String,
}

/// A single addressable bulb.
#[derive(Debug)]
pub struct Bulb {
    light: Light,
    ip: String,
    name: String,
}

/// A named group of bulbs.
#[derive(Debug)]
pub struct BulbGroup {
    bulbs: Vec<Bulb>,
    name: String,
}

/// A lighting device of any of the closed set of kinds.
#[derive(Debug)]
pub enum LightingTypes {
    LightStrip(LightStrip),
    Bulb(Bulb),
    BulbGroup(BulbGroup),
}

impl View for LightStrip {
    type V = StripView;

    closed spec fn view(&self) -> StripView {
        StripView {
            name: self.name@,
            pin: self.pin,
            length: self.length,
            lights: self.lights@,
            template: self.light_type,
        }
    }
}

impl View for Bulb {
    type V = BulbView;

    closed spec fn view(&self) -> BulbView {
        BulbView { name: self.name@, ip: self.ip@, light: self.light }
    }
}

impl View for BulbGroup {
    type V = GroupView;

    closed spec fn view(&self) -> GroupView {
        GroupView { name: self.name@, bulbs: Seq::new(self.bulbs@.len(), |i: int| self.bulbs@[i]@) }
    }
}

impl View for LightingTypes {
    type V = EntityView;

    open spec fn view(&self) -> EntityView {
        match self {
            LightingTypes::LightStrip(s) => EntityView::Strip(s@),
            LightingTypes::Bulb(b) => EntityView::Bulb(b@),
            LightingTypes::BulbGroup(g) => EntityView::Group(g@),
        }
    }
}

impl Clone for LightStrip {
    /// A deep copy with the same abstract value.
    fn clone(&self) -> (r: Self)
        ensures
            r@ == self@,
    {
        let mut lights: Vec<Light> = Vec::with_capacity(self.lights.len());
        for i in 0..self.lights.len()
            invariant
                lights@ =~= self.lights@.take(i as int),
        {
            lights.push(self.lights[i]);
        }
        proof {
            assert(lights@ =~= self.lights@);
        }
        LightStrip {
            lights,
            light_type: self.light_type,
            pin: self.pin,
            length: self.length,
            name: self.name.clone(),
        }
    }
}

impl Clone for Bulb {
    /// A deep copy with the same abstract value.
    fn clone(&self) -> (r: Self)
        ensures
            r@ == self@,
    {
        Bulb { light: self.light, ip: self.ip.clone(), name: self.name.clone() }
    }
}

impl Clone for BulbGroup {
    /// A deep copy with the same abstract value.
    fn clone(&self) -> (r: Self)
        ensures
            r@ == self@,
    {
        let mut bulbs: Vec<Bulb> = Vec::with_capacity(self.bulbs.len());
        for i in 0..self.bulbs.len()
            invariant
                bulbs@.len() == i,
                forall|j: int| 0 <= j < i ==> bulbs@[j]@ == self.bulbs@[j]@,
        {
            bulbs.push(self.bulbs[i].clone());
        }
        let r = BulbGroup { bulbs, name: self.name.clone() };
        proof {
            assert(r@.bulbs =~= self@.bulbs);
        }
        r
    }
}

impl Clone for LightingTypes {
    /// A deep copy with the same abstract value.
    fn clone(&self) -> (r: Self)
        ensures
            r@ == self@,
    {
        match self {
            LightingTypes::LightStrip(s) => LightingTypes::LightStrip(s.clone()),
            LightingTypes::Bulb(b) => LightingTypes::Bulb(b.clone()),
            LightingTypes::BulbGroup(g) => LightingTypes::BulbGroup(g.clone()),
        }
    }
}

impl LightStrip {
    /// A strip of `length` lights, each a cleared copy of `type_`, which is
    /// also kept as the element template for later growth.
    pub fn new(name: String, pin: u8, length: usize, type_: Light) -> (s: LightStrip)
        ensures
            s@ == (StripView {
                name: name@,
                pin,
                length,
                lights: Seq::new(length as nat, |i: int| type_.spec_cleared()),
                template: type_.spec_cleared(),
            }),
            s@.wf(),
    {
        let mut base = type_;
        base.clear();
        let mut v: Vec<Light> = Vec::with_capacity(length);
        for i in 0..length
            invariant
                v@ =~= Seq::new(i as nat, |j: int| base),
                base == type_.spec_cleared(),
        {
            v.push(base);
        }
        proof {
            assert(v@ =~= Seq::new(length as nat, |i: int| type_.spec_cleared()));
        }
        LightStrip { name, lights: v, light_type: base, pin, length }
    }

    /// A new strip wrapped in the device sum type.
    pub fn new_enum(name: String, pin: u8, length: usize, type_: Light) -> (e: LightingTypes)
        ensures
            e@ == EntityView::Strip(
                StripView {
                    name: name@,
                    pin,
                    length,
                    lights: Seq::new(length as nat, |i: int| type_.spec_cleared()),
                    template: type_.spec_cleared(),
                },
            ),
            e@.wf(),
    {
        LightingTypes::LightStrip(LightStrip::new(name, pin, length, type_))
    }

    /// The pin the strip is driven over.
    pub fn get_pin(&self) -> (p: u8)
        ensures
            p == self@.pin,
    {
        self.pin
    }

    /// Move the strip to another pin.
    pub fn set_pin(&mut self, pin: u8)
        ensures
            final(self)@ == (StripView { pin, ..old(self)@ }),
    {
        self.pin = pin;
    }

    /// The number of lights the strip is meant to hold.
    pub fn get_length(&self) -> (n: usize)
        ensures
            n == self@.length,
    {
        self.length
    }

    /// Resize the strip: shrinking truncates from the end, growing appends
    /// copies of the element template.
    pub fn set_length(&mut self, length: usize)
        requires
            old(self)@.wf(),
        ensures
            final(self)@ == old(self)@.resized(length),
            final(self)@.wf(),
    {
        self.length = length;
        if self.lights.len() < length {
            while self.lights.len() < length
                invariant
                    old(self)@.lights.len() <= self.lights@.len() <= length,
                    self.lights@ =~= old(self)@.lights + Seq::new(
                        (self.lights@.len() - old(self)@.lights.len()) as nat,
                        |i: int| old(self)@.template,
                    ),
                    self.light_type == old(self)@.template,
                    self.name@ == old(self)@.name,
                    self.pin == old(self)@.pin,
                    self.length == length,
                decreases length - self.lights.len(),
            {
                self.lights.push(self.light_type);
            }
            proof {
                assert(self@.lights =~= old(self)@.resized(length).lights);
            }
        } else {
            self.lights.truncate(length);
            proof {
                assert(self@.lights =~= old(self)@.resized(length).lights);
            }
        }
    }
}

// ---------------------------------------------------------------------------
// Shared loops over a vector of single lights.
// ---------------------------------------------------------------------------

fn lights_set_color(v: &mut Vec<Light>, color: Color)
    ensures
        final(v)@ == Seq::new(old(v)@.len(), |i: int| old(v)@[i].spec_with_color(color)),
{
    let n = v.len();
    for i in 0..n
        invariant
            n == v@.len(),
            v@.len() == old(v)@.len(),
            forall|j: int| 0 <= j < i ==> v@[j] == old(v)@[j].spec_with_color(color),
            forall|j: int| i <= j < n ==> v@[j] == old(v)@[j],
    {
        v[i].set_color(color);
    }
    proof {
        assert(v@ =~= Seq::new(old(v)@.len(), |i: int| old(v)@[i].spec_with_color(color)));
    }
}

fn lights_set_temp(v: &mut Vec<Light>, temp: u32)
    ensures
        final(v)@ == Seq::new(old(v)@.len(), |i: int| old(v)@[i].spec_with_temp(temp)),
{
    let n = v.len();
    for i in 0..n
        invariant
            n == v@.len(),
            v@.len() == old(v)@.len(),
            forall|j: int| 0 <= j < i ==> v@[j] == old(v)@[j].spec_with_temp(temp),
            forall|j: int| i <= j < n ==> v@[j] == old(v)@[j],
    {
        v[i].set_temp(temp);
    }
    proof {
        assert(v@ =~= Seq::new(old(v)@.len(), |i: int| old(v)@[i].spec_with_temp(temp)));
    }
}

fn lights_set_transp(v: &mut Vec<Light>, transp: u8)
    ensures
        final(v)@ == Seq::new(old(v)@.len(), |i: int| old(v)@[i].spec_with_transp(transp)),
{
    let n = v.len();
    for i in 0..n
        invariant
            n == v@.len(),
            v@.len() == old(v)@.len(),
            forall|j: int| 0 <= j < i ==> v@[j] == old(v)@[j].spec_with_transp(transp),
            forall|j: int| i <= j < n ==> v@[j] == old(v)@[j],
    {
        v[i].set_transp(transp);
    }
    proof {
        assert(v@ =~= Seq::new(old(v)@.len(), |i: int| old(v)@[i].spec_with_transp(transp)));
    }
}

fn lights_clear(v: &mut Vec<Light>)
    ensures
        final(v)@ == Seq::new(old(v)@.len(), |i: int| old(v)@[i].spec_cleared()),
{
    let n = v.len();
    for i in 0..n
        invariant
            n == v@.len(),
            v@.len() == old(v)@.len(),
            forall|j: int| 0 <= j < i ==> v@[j] == old(v)@[j].spec_cleared(),
            forall|j: int| i <= j < n ==> v@[j] == old(v)@[j],
    {
        v[i].clear();
    }
    proof {
        assert(v@ =~= Seq::new(old(v)@.len(), |i: int| old(v)@[i].spec_cleared()));
    }
}

fn lights_agg_color(v: &Vec<Light>) -> (r: Res)
    ensures
        r == agg_color(v@),
{
    if v.len() == 0 {
        return Res::Color(Color::new(0, 0, 0));
    }
    let first = v[0].get_color();
    let n = v.len();
    for i in 1..n
        invariant
            n == v@.len(),
            0 < n,
            first == v@[0].spec_color(),
            forall|j: int| 0 <= j < i ==> #[trigger] v@[j].spec_color() == v@[0].spec_color(),
    {
        if !(v[i].get_color() == first) {
            return Res::Mixed;
        }
    }
    Res::Color(first)
}

fn lights_agg_temp(v: &Vec<Light>) -> (r: Res)
    ensures
        r == agg_temp(v@),
{
    if v.len() == 0 {
        return Res::Temp(0);
    }
    let first = v[0].get_temp();
    let n = v.len();
    for i in 1..n
        invariant
            n == v@.len(),
            0 < n,
            first == v@[0].spec_temp(),
            forall|j: int| 0 <= j < i ==> #[trigger] v@[j].spec_temp() == v@[0].spec_temp(),
    {
        if !(v[i].get_temp() == first) {
            return Res::Mixed;
        }
    }
    Res::Temp(first)
}

fn lights_agg_transp(v: &Vec<Light>) -> (r: Res)
    ensures
        r == agg_transp(v@),
{
    if v.len() == 0 {
        return Res::Transparency(0);
    }
    let first = v[0].get_transp();
    let n = v.len();
    for i in 1..n
        invariant
            n == v@.len(),
            0 < n,
            first == v@[0].spec_transp(),
            forall|j: int| 0 <= j < i ==> #[trigger] v@[j].spec_transp() == v@[0].spec_transp(),
    {
        if !(v[i].get_transp() == first) {
            return Res::Mixed;
        }
    }
    Res::Transparency(first)
}

impl LightStrip {
    /// The strip's name.
    pub fn get_name(&self) -> (n: String)
        ensures
            n@ == self@.name,
    {
        self.name.clone()
    }

    /// Rename the strip.
    pub fn set_name(&mut self, name: String)
        ensures
            final(self)@ == (StripView { name: name@, ..old(self)@ }),
    {
        self.name = name;
    }

    /// The number of lights the strip currently holds.
    pub fn size(&self) -> (n: usize)
        ensures
            n == self@.lights.len(),
    {
        self.lights.len()
    }

    /// Set every light's color.
    pub fn set_color(&mut self, color: Color)
        ensures
            final(self)@ == (StripView {
                lights: Seq::new(
                    old(self)@.lights.len(),
                    |i: int| old(self)@.lights[i].spec_with_color(color),
                ),
                ..old(self)@
            }),
    {
        lights_set_color(&mut self.lights, color);
    }

    /// Set every light's temperature.
    pub fn set_temp(&mut self, temp: u32)
        ensures
            final(self)@ == (StripView {
                lights: Seq::new(
                    old(self)@.lights.len(),
                    |i: int| old(self)@.lights[i].spec_with_temp(temp),
                ),
                ..old(self)@
            }),
    {
        lights_set_temp(&mut self.lights, temp);
    }

    /// Set every light's transparency.
    pub fn set_transp(&mut self, transp: u8)
        ensures
            final(self)@ == (StripView {
                lights: Seq::new(
                    old(self)@.lights.len(),
                    |i: int| old(self)@.lights[i].spec_with_transp(transp),
                ),
                ..old(self)@
            }),
    {
        lights_set_transp(&mut self.lights, transp);
    }

    /// Set one light's color; out-of-range indices are silently ignored.
    pub fn set_color_index(&mut self, color: Color, index: usize)
        ensures
            final(self)@ == (if index < old(self)@.lights.len() {
                StripView {
                    lights: old(self)@.lights.update(
                        index as int,
                        old(self)@.lights[index as int].spec_with_color(color),
                    ),
                    ..old(self)@
                }
            } else {
                old(self)@
            }),
    {
        if self.lights.len() > index {
            self.lights[index].set_color(color);
        }
    }

    /// Set one light's temperature; out-of-range indices are silently
    /// ignored.
    pub fn set_temp_index(&mut self, temp: u32, index: usize)
        ensures
            final(self)@ == (if index < old(self)@.lights.len() {
                StripView {
                    lights: old(self)@.lights.update(
                        index as int,
                        old(self)@.lights[index as int].spec_with_temp(temp),
                    ),
                    ..old(self)@
                }
            } else {
                old(self)@
            }),
    {
        if self.lights.len() > index {
            self.lights[index].set_temp(temp);
        }
    }

    /// Set one light's transparency; out-of-range indices are silently
    /// ignored.
    pub fn set_transp_index(&mut self, transp: u8, index: usize)
        ensures
            final(self)@ == (if index < old(self)@.lights.len() {
                StripView {
                    lights: old(self)@.lights.update(
                        index as int,
                        old(self)@.lights[index as int].spec_with_transp(transp),
                    ),
                    ..old(self)@
                }
            } else {
                old(self)@
            }),
    {
        if self.lights.len() > index {
            self.lights[index].set_transp(transp);
        }
    }

    /// The aggregate color of the strip's lights.
    pub fn get_color(&self) -> (r: Res)
        ensures
            r == agg_color(self@.lights),
    {
        lights_agg_color(&self.lights)
    }

    /// The aggregate temperature of the strip's lights.
    pub fn get_temp(&self) -> (r: Res)
        ensures
            r == agg_temp(self@.lights),
    {
        lights_agg_temp(&self.lights)
    }

    /// The aggregate transparency of the strip's lights.
    pub fn get_transp(&self) -> (r: Res)
        ensures
            r == agg_transp(self@.lights),
    {
        lights_agg_transp(&self.lights)
    }

    /// Clear every light; the shape, template and identity fields are kept.
    pub fn clear(&mut self)
        ensures
            final(self)@ == (StripView {
                lights: Seq::new(old(self)@.lights.len(), |i: int| old(self)@.lights[i].spec_cleared()),
                ..old(self)@
            }),
    {
        lights_clear(&mut self.lights);
    }

    /// Take over name, pin and length from a canonical strip; light values
    /// are kept where the resize does not touch them.
    pub fn sync_structure(&mut self, state: &LightStrip)
        requires
            old(self)@.wf(),
        ensures
            final(self)@ == old(self)@.synced_with(state@),
            final(self)@.wf(),
    {
        if !(self.name == state.name) {
            self.set_name(state.get_name());
        }
        if self.pin != state.pin {
            self.set_pin(state.get_pin());
        }
        self.set_length(state.get_length());
        proof {
            assert(self@.lights =~= old(self)@.synced_with(state@).lights);
        }
    }
}

impl Bulb {
    /// A new bulb with the given address and name; its light is a default
    /// color-and-temperature light.
    pub fn new(ip: String, name: String) -> (b: Bulb)
        ensures
            b@ == (BulbView {
                name: name@,
                ip: ip@,
                light: Light::RGBT(RgbtLight {
                    color: Color { red: 0, green: 0, blue: 0 },
                    temp: 0,
                    transparency: 0,
                }),
            }),
    {
        Bulb { light: Light::RGBT(RgbtLight::default()), ip, name }
    }

    /// A new bulb wrapped in the device sum type: the first argument is its
    /// address and the second its name.
    pub fn new_enum(ip: String, name: String) -> (e: LightingTypes)
        ensures
            e@ == EntityView::Bulb(
                BulbView {
                    name: name@,
                    ip: ip@,
                    light: Light::RGBT(RgbtLight {
                        color: Color { red: 0, green: 0, blue: 0 },
                        temp: 0,
                        transparency: 0,
                    }),
                },
            ),
    {
        LightingTypes::Bulb(Bulb::new(ip, name))
    }

    /// The bulb's address.
    pub fn get_ip(&self) -> (ip: String)
        ensures
            ip@ == self@.ip,
    {
        self.ip.clone()
    }

    /// Change the bulb's address.
    pub fn set_ip(&mut self, ip: String)
        ensures
            final(self)@ == (BulbView { ip: ip@, ..old(self)@ }),
    {
        self.ip = ip;
    }

    /// The bulb's name.
    pub fn get_name(&self) -> (n: String)
        ensures
            n@ == self@.name,
    {
        self.name.clone()
    }

    /// Rename the bulb.
    pub fn set_name(&mut self, name: String)
        ensures
            final(self)@ == (BulbView { name: name@, ..old(self)@ }),
    {
        self.name = name;
    }

    /// A bulb exposes exactly one light.
    pub fn size(&self) -> (n: usize)
        ensures
            n == 1,
    {
        1
    }

    /// Set the light's color.
    pub fn set_color(&mut self, color: Color)
        ensures
            final(self)@ == old(self)@.with_light(old(self)@.light.spec_with_color(color)),
    {
        self.light.set_color(color);
    }

    /// Set the light's temperature.
    pub fn set_temp(&mut self, temp: u32)
        ensures
            final(self)@ == old(self)@.with_light(old(self)@.light.spec_with_temp(temp)),
    {
        self.light.set_temp(temp);
    }

    /// Set the light's transparency.
    pub fn set_transp(&mut self, transp: u8)
        ensures
            final(self)@ == old(self)@.with_light(old(self)@.light.spec_with_transp(transp)),
    {
        self.light.set_transp(transp);
    }

    /// Set the light's color when `index` is 0; other indices are ignored.
    pub fn set_color_index(&mut self, color: Color, index: usize)
        ensures
            final(self)@ == (if index == 0 {
                old(self)@.with_light(old(self)@.light.spec_with_color(color))
            } else {
                old(self)@
            }),
    {
        if index == 0 {
            self.light.set_color(color);
        }
    }

    /// Set the light's temperature when `index` is 0; other indices are
    /// ignored.
    pub fn set_temp_index(&mut self, temp: u32, index: usize)
        ensures
            final(self)@ == (if index == 0 {
                old(self)@.with_light(old(self)@.light.spec_with_temp(temp))
            } else {
                old(self)@
            }),
    {
        if index == 0 {
            self.light.set_temp(temp);
        }
    }

    /// Set the light's transparency when `index` is 0; other indices are
    /// ignored.
    pub fn set_transp_index(&mut self, transp: u8, index: usize)
        ensures
            final(self)@ == (if index == 0 {
                old(self)@.with_light(old(self)@.light.spec_with_transp(transp))
            } else {
                old(self)@
            }),
    {
        if index == 0 {
            self.light.set_transp(transp);
        }
    }

    /// The aggregate color over the bulb's single light: always that light's
    /// color.
    pub fn get_color(&self) -> (r: Res)
        ensures
            r == agg_color(seq![self@.light]),
    {
        Res::Color(self.light.get_color())
    }

    /// The aggregate temperature over the bulb's single light.
    pub fn get_temp(&self) -> (r: Res)
        ensures
            r == agg_temp(seq![self@.light]),
    {
        Res::Temp(self.light.get_temp())
    }

    /// The aggregate transparency over the bulb's single light.
    pub fn get_transp(&self) -> (r: Res)
        ensures
            r == agg_transp(seq![self@.light]),
    {
        Res::Transparency(self.light.get_transp())
    }

    /// Clear the bulb's light.
    pub fn clear(&mut self)
        ensures
            final(self)@ == old(self)@.with_light(old(self)@.light.spec_cleared()),
    {
        self.light.clear();
    }

    /// Take over name and address from a canonical bulb; the light value is
    /// kept.
    pub fn sync_structure(&mut self, state: &Bulb)
        ensures
            final(self)@ == old(self)@.synced_with(state@),
    {
        if !(self.name == state.name) {
            self.set_name(state.get_name());
        }
        if !(self.ip == state.ip) {
            self.set_ip(state.get_ip());
        }
    }
}

impl BulbGroup {
    /// An empty, named group of bulbs.
    pub fn new(name: String) -> (g: BulbGroup)
        ensures
            g@ == (GroupView { name: name@, bulbs: Seq::empty() }),
    {
        let g = BulbGroup { bulbs: Vec::new(), name };
        proof {
            assert(g@.bulbs =~= Seq::<BulbView>::empty());
        }
        g
    }

    /// A new empty group wrapped in the device sum type.
    pub fn new_enum(name: String) -> (e: LightingTypes)
        ensures
            e@ == EntityView::Group(GroupView { name: name@, bulbs: Seq::empty() }),
    {
        LightingTypes::BulbGroup(BulbGroup::new(name))
    }

    /// Append a bulb to the group.
    pub fn add_bulb(&mut self, b: Bulb)
        ensures
            final(self)@ == (GroupView { bulbs: old(self)@.bulbs.push(b@), ..old(self)@ }),
    {
        self.bulbs.push(b);
        proof {
            assert(self@.bulbs =~= old(self)@.bulbs.push(b@));
        }
    }

    /// Remove the bulb at `index`; out-of-range indices are silently ignored.
    pub fn remove_bulb(&mut self, index: usize)
        ensures
            final(self)@ == (if index < old(self)@.bulbs.len() {
                GroupView { bulbs: old(self)@.bulbs.remove(index as int), ..old(self)@ }
            } else {
                old(self)@
            }),
    {
        if index < self.bulbs.len() {
            self.bulbs.remove(index);
            proof {
                assert(self@.bulbs =~= old(self)@.bulbs.remove(index as int));
            }
        }
    }

    /// The bulb at `index`.
    pub fn get_bulb(&self, index: usize) -> (b: &Bulb)
        requires
            index < self@.bulbs.len(),
        ensures
            b@ == self@.bulbs[index as int],
    {
        &self.bulbs[index]
    }

    /// The group's name.
    pub fn get_name(&self) -> (n: String)
        ensures
            n@ == self@.name,
    {
        self.name.clone()
    }

    /// Rename the group.
    pub fn set_name(&mut self, name: String)
        ensures
            final(self)@ == (GroupView { name: name@, ..old(self)@ }),
    {
        self.name = name;
    }

    /// The number of lights the group exposes: one per bulb.
    pub fn size(&self) -> (n: usize)
        ensures
            n == self@.lights().len(),
    {
        self.bulbs.len()
    }

    /// Set every bulb's color.
    pub fn set_color(&mut self, color: Color)
        ensures
            final(self)@ == (GroupView {
                bulbs: Seq::new(
                    old(self)@.bulbs.len(),
                    |i: int| old(self)@.bulbs[i].with_light(
                        old(self)@.bulbs[i].light.spec_with_color(color),
                    ),
                ),
                ..old(self)@
            }),
    {
        let n = self.bulbs.len();
        for i in 0..n
            invariant
                n == self.bulbs@.len(),
                self.bulbs@.len() == old(self)@.bulbs.len(),
                self.name@ == old(self)@.name,
                forall|j: int| 0 <= j < i ==> #[trigger] self.bulbs@[j]@ == old(self)@.bulbs[j]
                    .with_light(old(self)@.bulbs[j].light.spec_with_color(color)),
                forall|j: int| i <= j < n ==> #[trigger] self.bulbs@[j]@ == old(self)@.bulbs[j],
        {
            self.bulbs[i].set_color(color);
        }
        proof {
            assert(self@.bulbs =~= Seq::new(
                old(self)@.bulbs.len(),
                |i: int| old(self)@.bulbs[i].with_light(
                    old(self)@.bulbs[i].light.spec_with_color(color),
                ),
            ));
        }
    }

    /// Set every bulb's temperature.
    pub fn set_temp(&mut self, temp: u32)
        ensures
            final(self)@ == (GroupView {
                bulbs: Seq::new(
                    old(self)@.bulbs.len(),
                    |i: int| old(self)@.bulbs[i].with_light(
                        old(self)@.bulbs[i].light.spec_with_temp(temp),
                    ),
                ),
                ..old(self)@
            }),
    {
        let n = self.bulbs.len();
        for i in 0..n
            invariant
                n == self.bulbs@.len(),
                self.bulbs@.len() == old(self)@.bulbs.len(),
                self.name@ == old(self)@.name,
                forall|j: int| 0 <= j < i ==> #[trigger] self.bulbs@[j]@ == old(self)@.bulbs[j]
                    .with_light(old(self)@.bulbs[j].light.spec_with_temp(temp)),
                forall|j: int| i <= j < n ==> #[trigger] self.bulbs@[j]@ == old(self)@.bulbs[j],
        {
            self.bulbs[i].set_temp(temp);
        }
        proof {
            assert(self@.bulbs =~= Seq::new(
                old(self)@.bulbs.len(),
                |i: int| old(self)@.bulbs[i].with_light(
                    old(self)@.bulbs[i].light.spec_with_temp(temp),
                ),
            ));
        }
    }

    /// Set every bulb's transparency.
    pub fn set_transp(&mut self, transp: u8)
        ensures
            final(self)@ == (GroupView {
                bulbs: Seq::new(
                    old(self)@.bulbs.len(),
                    |i: int| old(self)@.bulbs[i].with_light(
                        old(self)@.bulbs[i].light.spec_with_transp(transp),
                    ),
                ),
                ..old(self)@
            }),
    {
        let n = self.bulbs.len();
        for i in 0..n
            invariant
                n == self.bulbs@.len(),
                self.bulbs@.len() == old(self)@.bulbs.len(),
                self.name@ == old(self)@.name,
                forall|j: int| 0 <= j < i ==> #[trigger] self.bulbs@[j]@ == old(self)@.bulbs[j]
                    .with_light(old(self)@.bulbs[j].light.spec_with_transp(transp)),
                forall|j: int| i <= j < n ==> #[trigger] self.bulbs@[j]@ == old(self)@.bulbs[j],
        {
            self.bulbs[i].set_transp(transp);
        }
        proof {
            assert(self@.bulbs =~= Seq::new(
                old(self)@.bulbs.len(),
                |i: int| old(self)@.bulbs[i].with_light(
                    old(self)@.bulbs[i].light.spec_with_transp(transp),
                ),
            ));
        }
    }

    /// Set one bulb's color; out-of-range indices are silently ignored.
    pub fn set_color_index(&mut self, color: Color, index: usize)
        ensures
            final(self)@ == (if index < old(self)@.bulbs.len() {
                GroupView {
                    bulbs: old(self)@.bulbs.update(
                        index as int,
                        old(self)@.bulbs[index as int].with_light(
                            old(self)@.bulbs[index as int].light.spec_with_color(color),
                        ),
                    ),
                    ..old(self)@
                }
            } else {
                old(self)@
            }),
    {
        if self.bulbs.len() > index {
            self.bulbs[index].set_color(color);
            proof {
                assert(self@.bulbs =~= old(self)@.bulbs.update(
                    index as int,
                    old(self)@.bulbs[index as int].with_light(
                        old(self)@.bulbs[index as int].light.spec_with_color(color),
                    ),
                ));
            }
        }
    }

    /// Set one bulb's temperature; out-of-range indices are silently
    /// ignored.
    pub fn set_temp_index(&mut self, temp: u32, index: usize)
        ensures
            final(self)@ == (if index < old(self)@.bulbs.len() {
                GroupView {
                    bulbs: old(self)@.bulbs.update(
                        index as int,
                        old(self)@.bulbs[index as int].with_light(
                            old(self)@.bulbs[index as int].light.spec_with_temp(temp),
                        ),
                    ),
                    ..old(self)@
                }
            } else {
                old(self)@
            }),
    {
        if self.bulbs.len() > index {
            self.bulbs[index].set_temp(temp);
            proof {
                assert(self@.bulbs =~= old(self)@.bulbs.update(
                    index as int,
                    old(self)@.bulbs[index as int].with_light(
                        old(self)@.bulbs[index as int].light.spec_with_temp(temp),
                    ),
                ));
            }
        }
    }

    /// Set one bulb's transparency; out-of-range indices are silently
    /// ignored.
    pub fn set_transp_index(&mut self, transp: u8, index: usize)
        ensures
            final(self)@ == (if index < old(self)@.bulbs.len() {
                GroupView {
                    bulbs: old(self)@.bulbs.update(
                        index as int,
                        old(self)@.bulbs[index as int].with_light(
                            old(self)@.bulbs[index as int].light.spec_with_transp(transp),
                        ),
                    ),
                    ..old(self)@
                }
            } else {
                old(self)@
            }),
    {
        if self.bulbs.len() > index {
            self.bulbs[index].set_transp(transp);
            proof {
                assert(self@.bulbs =~= old(self)@.bulbs.update(
                    index as int,
                    old(self)@.bulbs[index as int].with_light(
                        old(self)@.bulbs[index as int].light.spec_with_transp(transp),
                    ),
                ));
            }
        }
    }

    /// The aggregate color over the group's lights.
    pub fn get_color(&self) -> (r: Res)
        ensures
            r == agg_color(self@.lights()),
    {
        if self.bulbs.len() == 0 {
            return Res::Color(Color::new(0, 0, 0));
        }
        let first = self.bulbs[0].light.get_color();
        proof {
            assert(self@.lights()[0] == self.bulbs@[0]@.light);
        }
        let n = self.bulbs.len();
        for i in 1..n
            invariant
                n == self.bulbs@.len(),
                0 < n,
                first == self@.lights()[0].spec_color(),
                forall|j: int| 0 <= j < i ==> #[trigger] self@.lights()[j].spec_color()
                    == self@.lights()[0].spec_color(),
        {
            proof {
                assert(self@.lights()[i as int] == self.bulbs@[i as int]@.light);
            }
            if !(self.bulbs[i].light.get_color() == first) {
                proof {
                    assert(self@.lights()[i as int].spec_color() != self@.lights()[0].spec_color());
                }
                return Res::Mixed;
            }
        }
        Res::Color(first)
    }

    /// The aggregate temperature over the group's lights.
    pub fn get_temp(&self) -> (r: Res)
        ensures
            r == agg_temp(self@.lights()),
    {
        if self.bulbs.len() == 0 {
            return Res::Temp(0);
        }
        let first = self.bulbs[0].light.get_temp();
        proof {
            assert(self@.lights()[0] == self.bulbs@[0]@.light);
        }
        let n = self.bulbs.len();
        for i in 1..n
            invariant
                n == self.bulbs@.len(),
                0 < n,
                first == self@.lights()[0].spec_temp(),
                forall|j: int| 0 <= j < i ==> #[trigger] self@.lights()[j].spec_temp()
                    == self@.lights()[0].spec_temp(),
        {
            proof {
                assert(self@.lights()[i as int] == self.bulbs@[i as int]@.light);
            }
            if !(self.bulbs[i].light.get_temp() == first) {
                proof {
                    assert(self@.lights()[i as int].spec_temp() != self@.lights()[0].spec_temp());
                }
                return Res::Mixed;
            }
        }
        Res::Temp(first)
    }

    /// The aggregate transparency over the group's lights.
    pub fn get_transp(&self) -> (r: Res)
        ensures
            r == agg_transp(self@.lights()),
    {
        if self.bulbs.len() == 0 {
            return Res::Transparency(0);
        }
        let first = self.bulbs[0].light.get_transp();
        proof {
            assert(self@.lights()[0] == self.bulbs@[0]@.light);
        }
        let n = self.bulbs.len();
        for i in 1..n
            invariant
                n == self.bulbs@.len(),
                0 < n,
                first == self@.lights()[0].spec_transp(),
                forall|j: int| 0 <= j < i ==> #[trigger] self@.lights()[j].spec_transp()
                    == self@.lights()[0].spec_transp(),
        {
            proof {
                assert(self@.lights()[i as int] == self.bulbs@[i as int]@.light);
            }
            if !(self.bulbs[i].light.get_transp() == first) {
                proof {
                    assert(self@.lights()[i as int].spec_transp() != self@.lights()[0].spec_transp());
                }
                return Res::Mixed;
            }
        }
        Res::Transparency(first)
    }

    /// Clear every bulb's light.
    pub fn clear(&mut self)
        ensures
            final(self)@ == (GroupView {
                bulbs: Seq::new(
                    old(self)@.bulbs.len(),
                    |i: int| old(self)@.bulbs[i].with_light(old(self)@.bulbs[i].light.spec_cleared()),
                ),
                ..old(self)@
            }),
    {
        let n = self.bulbs.len();
        for i in 0..n
            invariant
                n == self.bulbs@.len(),
                self.bulbs@.len() == old(self)@.bulbs.len(),
                self.name@ == old(self)@.name,
                forall|j: int| 0 <= j < i ==> #[trigger] self.bulbs@[j]@ == old(self)@.bulbs[j]
                    .with_light(old(self)@.bulbs[j].light.spec_cleared()),
                forall|j: int| i <= j < n ==> #[trigger] self.bulbs@[j]@ == old(self)@.bulbs[j],
        {
            self.bulbs[i].clear();
        }
        proof {
            assert(self@.bulbs =~= Seq::new(
                old(self)@.bulbs.len(),
                |i: int| old(self)@.bulbs[i].with_light(old(self)@.bulbs[i].light.spec_cleared()),
            ));
        }
    }

    /// Take over the name from a canonical group; the bulbs are kept.
    pub fn sync_structure(&mut self, state: &BulbGroup)
        ensures
            final(self)@ == old(self)@.synced_with(state@),
    {
        if !(self.name == state.name) {
            self.set_name(state.get_name());
        }
    }
}

impl LightingTypes {
    /// The device's name.
    pub fn get_name(&self) -> (n: String)
        ensures
            n@ == self@.name(),
    {
        match self {
            LightingTypes::LightStrip(x) => x.get_name(),
            LightingTypes::BulbGroup(x) => x.get_name(),
            LightingTypes::Bulb(x) => x.get_name(),
        }
    }

    /// Rename the device.
    pub fn set_name(&mut self, name: String)
        ensures
            final(self)@ == old(self)@.with_name(name@),
    {
        match self {
            LightingTypes::LightStrip(x) => x.set_name(name),
            LightingTypes::BulbGroup(x) => x.set_name(name),
            LightingTypes::Bulb(x) => x.set_name(name),
        }
    }

    /// The number of single lights the device exposes.
    pub fn size(&self) -> (n: usize)
        ensures
            n == self@.lights().len(),
    {
        match self {
            LightingTypes::LightStrip(x) => x.size(),
            LightingTypes::BulbGroup(x) => x.size(),
            LightingTypes::Bulb(x) => x.size(),
        }
    }

    /// Set every light's color.
    pub fn set_color(&mut self, color: Color)
        ensures
            final(self)@ == old(self)@.with_color_all(color),
    {
        match self {
            LightingTypes::LightStrip(x) => {
                x.set_color(color);
                proof {
                    assert(x@.lights =~= old(self)@.with_color_all(color)->Strip_0.lights);
                }
            },
            LightingTypes::BulbGroup(x) => {
                x.set_color(color);
                proof {
                    assert(x@.bulbs =~= old(self)@.with_color_all(color)->Group_0.bulbs);
                }
            },
            LightingTypes::Bulb(x) => {
                x.set_color(color);
                proof {
                    assert(old(self)@.lights() =~= seq![old(self)@->Bulb_0.light]);
                }
            },
        }
    }

    /// Set every light's temperature.
    pub fn set_temp(&mut self, temp: u32)
        ensures
            final(self)@ == old(self)@.with_temp_all(temp),
    {
        match self {
            LightingTypes::LightStrip(x) => {
                x.set_temp(temp);
                proof {
                    assert(x@.lights =~= old(self)@.with_temp_all(temp)->Strip_0.lights);
                }
            },
            LightingTypes::BulbGroup(x) => {
                x.set_temp(temp);
                proof {
                    assert(x@.bulbs =~= old(self)@.with_temp_all(temp)->Group_0.bulbs);
                }
            },
            LightingTypes::Bulb(x) => {
                x.set_temp(temp);
                proof {
                    assert(old(self)@.lights() =~= seq![old(self)@->Bulb_0.light]);
                }
            },
        }
    }

    /// Set every light's transparency.
    pub fn set_transp(&mut self, transp: u8)
        ensures
            final(self)@ == old(self)@.with_transp_all(transp),
    {
        match self {
            LightingTypes::LightStrip(x) => {
                x.set_transp(transp);
                proof {
                    assert(x@.lights =~= old(self)@.with_transp_all(transp)->Strip_0.lights);
                }
            },
            LightingTypes::BulbGroup(x) => {
                x.set_transp(transp);
                proof {
                    assert(x@.bulbs =~= old(self)@.with_transp_all(transp)->Group_0.bulbs);
                }
            },
            LightingTypes::Bulb(x) => {
                x.set_transp(transp);
                proof {
                    assert(old(self)@.lights() =~= seq![old(self)@->Bulb_0.light]);
                }
            },
        }
    }

    /// Set one light's color; out-of-range indices are silently ignored.
    pub fn set_color_index(&mut self, color: Color, index: usize)
        ensures
            final(self)@ == old(self)@.with_color_at(color, index),
    {
        match self {
            LightingTypes::LightStrip(x) => x.set_color_index(color, index),
            LightingTypes::BulbGroup(x) => {
                x.set_color_index(color, index);
                proof {
                    if (index as int) < old(self)@.lights().len() {
                        assert(x@.bulbs =~= old(self)@.with_color_at(color, index)->Group_0.bulbs);
                    }
                }
            },
            LightingTypes::Bulb(x) => {
                x.set_color_index(color, index);
                proof {
                    assert(old(self)@.lights() =~= seq![old(self)@->Bulb_0.light]);
                    if index == 0 {
                        assert(old(self)@.lights().update(0, old(self)@.lights()[0].spec_with_color(color))
                            =~= seq![old(self)@->Bulb_0.light.spec_with_color(color)]);
                    }
                }
            },
        }
    }

    /// Set one light's temperature; out-of-range indices are silently
    /// ignored.
    pub fn set_temp_index(&mut self, temp: u32, index: usize)
        ensures
            final(self)@ == old(self)@.with_temp_at(temp, index),
    {
        match self {
            LightingTypes::LightStrip(x) => x.set_temp_index(temp, index),
            LightingTypes::BulbGroup(x) => {
                x.set_temp_index(temp, index);
                proof {
                    if (index as int) < old(self)@.lights().len() {
                        assert(x@.bulbs =~= old(self)@.with_temp_at(temp, index)->Group_0.bulbs);
                    }
                }
            },
            LightingTypes::Bulb(x) => {
                x.set_temp_index(temp, index);
                proof {
                    assert(old(self)@.lights() =~= seq![old(self)@->Bulb_0.light]);
                    if index == 0 {
                        assert(old(self)@.lights().update(0, old(self)@.lights()[0].spec_with_temp(temp))
                            =~= seq![old(self)@->Bulb_0.light.spec_with_temp(temp)]);
                    }
                }
            },
        }
    }

    /// Set one light's transparency; out-of-range indices are silently
    /// ignored.
    pub fn set_transp_index(&mut self, transp: u8, index: usize)
        ensures
            final(self)@ == old(self)@.with_transp_at(transp, index),
    {
        match self {
            LightingTypes::LightStrip(x) => x.set_transp_index(transp, index),
            LightingTypes::BulbGroup(x) => {
                x.set_transp_index(transp, index);
                proof {
                    if (index as int) < old(self)@.lights().len() {
                        assert(x@.bulbs =~= old(self)@.with_transp_at(transp, index)->Group_0.bulbs);
                    }
                }
            },
            LightingTypes::Bulb(x) => {
                x.set_transp_index(transp, index);
                proof {
                    assert(old(self)@.lights() =~= seq![old(self)@->Bulb_0.light]);
                    if index == 0 {
                        assert(old(self)@.lights().update(0, old(self)@.lights()[0].spec_with_transp(transp))
                            =~= seq![old(self)@->Bulb_0.light.spec_with_transp(transp)]);
                    }
                }
            },
        }
    }

    /// The aggregate color over the device's lights.
    pub fn get_color(&self) -> (r: Res)
        ensures
            r == agg_color(self@.lights()),
    {
        match self {
            LightingTypes::LightStrip(x) => x.get_color(),
            LightingTypes::BulbGroup(x) => x.get_color(),
            LightingTypes::Bulb(x) => x.get_color(),
        }
    }

    /// The aggregate temperature over the device's lights.
    pub fn get_temp(&self) -> (r: Res)
        ensures
            r == agg_temp(self@.lights()),
    {
        match self {
            LightingTypes::LightStrip(x) => x.get_temp(),
            LightingTypes::BulbGroup(x) => x.get_temp(),
            LightingTypes::Bulb(x) => x.get_temp(),
        }
    }

    /// The aggregate transparency over the device's lights.
    pub fn get_transp(&self) -> (r: Res)
        ensures
            r == agg_transp(self@.lights()),
    {
        match self {
            LightingTypes::LightStrip(x) => x.get_transp(),
            LightingTypes::BulbGroup(x) => x.get_transp(),
            LightingTypes::Bulb(x) => x.get_transp(),
        }
    }

    /// Clear every light; shape and identity fields are kept, so a cleared
    /// device is structurally the same device in its neutral state.
    pub fn clear(&mut self)
        ensures
            final(self)@ == old(self)@.cleared(),
            old(self)@.wf() ==> final(self)@.wf(),
    {
        match self {
            LightingTypes::LightStrip(x) => {
                x.clear();
                proof {
                    assert(x@.lights =~= old(self)@.cleared()->Strip_0.lights);
                }
            },
            LightingTypes::BulbGroup(x) => {
                x.clear();
                proof {
                    assert(x@.bulbs =~= old(self)@.cleared()->Group_0.bulbs);
                }
            },
            LightingTypes::Bulb(x) => {
                x.clear();
                proof {
                    assert(old(self)@.lights() =~= seq![old(self)@->Bulb_0.light]);
                }
            },
        }
    }

    /// Structural synchronization against a canonical device: per-field
    /// take-over when the kinds match, a no-op otherwise.
    pub fn sync_structure(&mut self, state: &LightingTypes)
        requires
            old(self)@.wf(),
        ensures
            final(self)@ == old(self)@.synced_with(state@),
            final(self)@.wf(),
    {
        match (self, state) {
            (LightingTypes::LightStrip(x), LightingTypes::LightStrip(y)) => x.sync_structure(y),
            (LightingTypes::BulbGroup(x), LightingTypes::BulbGroup(y)) => x.sync_structure(y),
            (LightingTypes::Bulb(x), LightingTypes::Bulb(y)) => x.sync_structure(y),
            _ => (),
        }
    }
}

/// A windowed one-line rendering of a light sequence: at most the first and
/// last ten cells, with an ellipsis between them.
fn lights_as_string(v: &Vec<Light>) -> String {
    let max: usize = 20;
    let mut out = String::new();
    let s = v.len();
    for index in 0..s
        invariant
            s == v@.len(),
    {
        if s <= max || index < max / 2 || s - index <= max / 2 {
            out.append(v[index].as_string().as_str());
            if s > max && index == max / 2 - 1 {
                out.append("...");
            }
        }
    }
    out
}

impl LightStrip {
    /// A windowed terminal rendering of the strip.
    pub fn as_string(&self) -> String {
        lights_as_string(&self.lights)
    }
}

impl Bulb {
    /// A one-cell terminal rendering of the bulb's light.
    pub fn as_string(&self) -> String {
        self.light.as_string()
    }
}

impl BulbGroup {
    /// A windowed terminal rendering of the group's lights.
    pub fn as_string(&self) -> String {
        let mut lights: Vec<Light> = Vec::new();
        let n = self.bulbs.len();
        for i in 0..n
            invariant
                n == self.bulbs@.len(),
        {
            lights.push(self.bulbs[i].light);
        }
        lights_as_string(&lights)
    }
}

impl LightingTypes {
    /// A windowed terminal rendering of the device.
    pub fn as_string(&self) -> String {
        match self {
            LightingTypes::LightStrip(x) => x.as_string(),
            LightingTypes::BulbGroup(x) => x.as_string(),
            LightingTypes::Bulb(x) => x.as_string(),
        }
    }
}

} // verus!
