//! Display modes, and the choice of one for a connector.

use vstd::prelude::*;

use crate::geometry::Size;

verus! {

/// Whether the mode flags in `bits` mark an interlaced mode:
/// `ModeFlags::contains` of the `drm` crate, asked for its `INTERLACE` flag.
/// Claims that this flag is the bit of value 16.
#[verifier::external_body]
fn has_interlace(bits: u32) -> (set: bool)
    ensures
        set == (bits & 16 == 16),
{
    drm::control::ModeFlags::from_bits_truncate(bits).contains(drm::control::ModeFlags::INTERLACE)
}

/// Whether the mode flags in `bits` mark a double-scanned mode:
/// `ModeFlags::contains` of the `drm` crate, asked for its `DBLSCAN` flag.
/// Claims that this flag is the bit of value 32.
#[verifier::external_body]
fn has_doublescan(bits: u32) -> (set: bool)
    ensures
        set == (bits & 32 == 32),
{
    drm::control::ModeFlags::from_bits_truncate(bits).contains(drm::control::ModeFlags::DBLSCAN)
}

/// Whether the mode type in `bits` marks the monitor's preferred mode:
/// `ModeTypeFlags::contains` of the `drm` crate, asked for its `PREFERRED`
/// flag. Claims that this flag is the bit of value 8.
#[verifier::external_body]
fn has_preferred(bits: u32) -> (set: bool)
    ensures
        set == (bits & 8 == 8),
{
    drm::control::ModeTypeFlags::from_bits_truncate(bits).contains(
        drm::control::ModeTypeFlags::PREFERRED,
    )
}

/// The kernel's 32-byte mode name, as four words.
#[derive(Clone, Copy, Debug, PartialEq, Eq, Structural)]
pub struct ModeName {
    pub first: u64,
    pub second: u64,
    pub third: u64,
    pub fourth: u64,
}

/// A display mode as the kernel describes it.
#[derive(Clone, Copy, Debug, PartialEq, Eq, Structural)]
pub struct DisplayMode {
    /// Pixel clock in kilohertz.
    pub clock: u32,
    pub hdisplay: u16,
    pub hsync_start: u16,
    pub hsync_end: u16,
    pub htotal: u16,
    pub hskew: u16,
    pub vdisplay: u16,
    pub vsync_start: u16,
    pub vsync_end: u16,
    pub vtotal: u16,
    pub vscan: u16,
    /// Refresh rate in hertz, rounded.
    pub vrefresh: u32,
    pub flags: u32,
    pub mode_type: u32,
    pub name: ModeName,
}

/// A mode as clients see it: a size in pixels and a refresh rate in millihertz.
#[derive(Clone, Copy, Debug, PartialEq, Eq, Structural)]
pub struct Mode {
    pub size: Size,
    pub refresh: i32,
}

/// The size part of a configured resolution.
#[derive(Clone, Copy, Debug, PartialEq, Eq, Structural)]
pub enum SizeSetting {
    /// The size of the monitor's preferred mode.
    Preferred,
    /// The largest area on offer.
    Max,
    /// This width and height.
    Exact(u16, u16),
}

/// The refresh part of a configured resolution.
#[derive(Clone, Copy, Debug, PartialEq, Eq, Structural)]
pub enum RefreshSetting {
    /// The highest rate, except that a bare preferred size means the
    /// preferred mode as it is.
    Auto,
    /// The highest rate.
    Max,
    /// The rate nearest to this one, in millihertz.
    Exact(i32),
}

/// A configured resolution.
#[derive(Clone, Copy, Debug, PartialEq, Eq, Structural)]
pub struct Resolution {
    pub size: SizeSetting,
    pub refresh: RefreshSetting,
}

impl DisplayMode {
    /// Whether the mode is interlaced.
    pub open spec fn interlaced(self) -> bool {
        self.flags & 16 == 16
    }

    /// Whether the mode is double-scanned.
    pub open spec fn double_scanned(self) -> bool {
        self.flags & 32 == 32
    }

    /// Whether the monitor prefers the mode.
    pub open spec fn preferred(self) -> bool {
        self.mode_type & 8 == 8
    }

    /// The mode's width and height.
    pub open spec fn dimensions(self) -> (u16, u16) {
        (self.hdisplay, self.vdisplay)
    }

    /// The mode's area in pixels.
    pub open spec fn area(self) -> int {
        self.hdisplay * self.vdisplay
    }

    /// Whether the mode has totals to divide its clock by.
    pub open spec fn timed(self) -> bool {
        self.htotal > 0 && self.vtotal > 0
    }

    /// The number of fields scanned in a thousand seconds, rounded.
    pub open spec fn scan_rate(self) -> int {
        (self.clock as int * 1_000_000 / self.htotal as int + self.vtotal as int / 2)
            / self.vtotal as int
    }

    /// The rate in millihertz at which whole frames are shown: an interlaced
    /// frame counts for both its fields, a line that is scanned several times
    /// slows the mode down.
    pub open spec fn frame_rate(self) -> int {
        let fields = self.scan_rate() * (if self.interlaced() { 2int } else { 1 });
        let lines = fields / (if self.double_scanned() { 2int } else { 1 });
        lines / (if self.vscan > 1 { self.vscan as int } else { 1 })
    }

    /// The frame rate as a 32-bit number of millihertz.
    pub open spec fn refresh_mhz(self) -> i32 {
        (self.frame_rate() as u64) as i32
    }

    /// The mode as clients see it.
    pub open spec fn client_mode(self) -> Mode {
        Mode {
            size: Size { w: self.hdisplay as i32, h: self.vdisplay as i32 },
            refresh: self.refresh_mhz(),
        }
    }

    /// The mode's width and height.
    pub fn size(&self) -> (size: (u16, u16))
        ensures
            size == self.dimensions(),
    {
        (self.hdisplay, self.vdisplay)
    }

    /// Tests whether the mode has totals to divide its clock by.
    pub fn has_totals(&self) -> (timed: bool)
        ensures
            timed == self.timed(),
    {
        self.htotal > 0 && self.vtotal > 0
    }

    /// Converts the mode to what clients see of it.
    pub fn to_mode(&self) -> (mode: Mode)
        requires
            self.timed(),
        ensures
            mode == self.client_mode(),
    {
        let clock: u64 = self.clock as u64;
        let htotal: u64 = self.htotal as u64;
        let vtotal: u64 = self.vtotal as u64;
        let pixels: u64 = clock * 1_000_000;
        proof {
            vstd::arithmetic::div_mod::lemma_div_is_ordered_by_denominator(
                pixels as int,
                1,
                htotal as int,
            );
        }
        let lines: u64 = pixels / htotal;
        proof {
            vstd::arithmetic::div_mod::lemma_div_is_ordered_by_denominator(
                lines + vtotal / 2,
                1,
                vtotal as int,
            );
        }
        let mut refresh: u64 = (lines + vtotal / 2) / vtotal;
        if has_interlace(self.flags) {
            refresh = refresh * 2;
        }
        if has_doublescan(self.flags) {
            refresh = refresh / 2;
        }
        if self.vscan > 1 {
            refresh = refresh / self.vscan as u64;
        }
        Mode {
            size: Size { w: self.hdisplay as i32, h: self.vdisplay as i32 },
            refresh: #[verifier::truncate] (refresh as i32),
        }
    }
}

/// A connector, as it was when its monitor was plugged in.
#[derive(Debug)]
pub struct ConnectorInfo {
    /// The kernel's number for the kind of connector.
    pub interface: u32,
    /// Tells connectors of one kind apart.
    pub interface_id: u32,
    /// The monitor's physical size in millimetres, where it is known.
    pub size: Option<(u32, u32)>,
    /// The modes that the monitor offers.
    pub modes: Vec<DisplayMode>,
}

/// Whether `i` is the position of the preferred mode: the first one so marked,
/// or the first of all where none is.
pub open spec fn preferred_at(modes: Seq<DisplayMode>, i: int) -> bool {
    &&& 0 <= i < modes.len()
    &&& {
        ||| modes[i].preferred() && forall|j: int| 0 <= j < i ==> !(#[trigger] modes[j]).preferred()
        ||| i == 0 && forall|j: int| 0 <= j < modes.len() ==> !(#[trigger] modes[j]).preferred()
    }
}

/// The preferred mode of a non-empty list.
pub open spec fn preferred_mode(modes: Seq<DisplayMode>) -> DisplayMode {
    modes[choose|i: int| preferred_at(modes, i)]
}

/// Whether `i` is the position of the largest progressive mode, the last one
/// where several are of that area.
pub open spec fn largest_at(modes: Seq<DisplayMode>, i: int) -> bool {
    &&& 0 <= i < modes.len()
    &&& !modes[i].interlaced()
    &&& forall|j: int|
        0 <= j < modes.len() && !(#[trigger] modes[j]).interlaced() ==> modes[j].area()
            < modes[i].area() || (modes[j].area() == modes[i].area() && j <= i)
}

/// Whether a mode is progressive and of the given size.
pub open spec fn fits(mode: DisplayMode, size: (u16, u16)) -> bool {
    !mode.interlaced() && mode.dimensions() == size
}

/// Whether `i` is the position of the fastest fitting mode, the last one where
/// several are as fast.
pub open spec fn fastest_at(modes: Seq<DisplayMode>, size: (u16, u16), i: int) -> bool {
    &&& 0 <= i < modes.len()
    &&& fits(modes[i], size)
    &&& forall|j: int|
        0 <= j < modes.len() && fits(#[trigger] modes[j], size) ==> modes[j].refresh_mhz()
            < modes[i].refresh_mhz() || (modes[j].refresh_mhz() == modes[i].refresh_mhz() && j
            <= i)
}

/// How far a mode's refresh rate is from `mhz`.
pub open spec fn refresh_gap(mode: DisplayMode, mhz: i32) -> int {
    if mode.refresh_mhz() < mhz {
        mhz - mode.refresh_mhz()
    } else {
        mode.refresh_mhz() - mhz
    }
}

/// Whether `i` is the position of the fitting mode whose rate is nearest to
/// `mhz`, the first one where several are as near.
pub open spec fn nearest_at(
    modes: Seq<DisplayMode>,
    size: (u16, u16),
    mhz: i32,
    i: int,
) -> bool {
    &&& 0 <= i < modes.len()
    &&& fits(modes[i], size)
    &&& forall|j: int|
        0 <= j < modes.len() && fits(#[trigger] modes[j], size) ==> refresh_gap(modes[i], mhz)
            < refresh_gap(modes[j], mhz) || (refresh_gap(modes[i], mhz) == refresh_gap(
            modes[j],
            mhz,
        ) && i <= j)
}

/// The size that a setting asks of a non-empty list of modes. There is none
/// where the largest is wanted and every mode is interlaced.
pub open spec fn wanted_size(modes: Seq<DisplayMode>, setting: SizeSetting) -> Option<(u16, u16)> {
    match setting {
        SizeSetting::Preferred => Some(preferred_mode(modes).dimensions()),
        SizeSetting::Max => if exists|i: int| largest_at(modes, i) {
            Some(modes[choose|i: int| largest_at(modes, i)].dimensions())
        } else {
            None
        },
        SizeSetting::Exact(w, h) => Some((w, h)),
    }
}

/// Whether a target means the preferred mode as it is.
pub open spec fn bare_preferred(target: Resolution) -> bool {
    target.refresh is Auto && target.size is Preferred
}

/// The mode that matches a target among the modes of one size.
pub open spec fn matching_mode(
    modes: Seq<DisplayMode>,
    target: Resolution,
    size: (u16, u16),
) -> Option<DisplayMode> {
    if bare_preferred(target) {
        Some(preferred_mode(modes))
    } else {
        match target.refresh {
            RefreshSetting::Exact(mhz) => if exists|i: int| #[trigger]
                nearest_at(modes, size, mhz, i) && refresh_gap(modes[i], mhz) <= 1000 {
                Some(modes[choose|i: int| nearest_at(modes, size, mhz, i)])
            } else {
                None
            },
            _ => if exists|i: int| fastest_at(modes, size, i) {
                Some(modes[choose|i: int| fastest_at(modes, size, i)])
            } else {
                None
            },
        }
    }
}

/// The mode for a target, and whether it is only the fallback: the preferred
/// mode, used because nothing matched. Without modes there is none.
pub open spec fn picked(modes: Seq<DisplayMode>, target: Resolution) -> Option<
    (DisplayMode, bool),
> {
    if modes.len() == 0 {
        None
    } else {
        let found = match wanted_size(modes, target.size) {
            Some(size) => matching_mode(modes, target, size),
            None => None,
        };
        match found {
            Some(mode) => Some((mode, false)),
            None => Some((preferred_mode(modes), true)),
        }
    }
}

/// Whether the refresh rates that picking a mode compares can be computed: the
/// modes of the wanted size have totals to divide by, and lie within 32 bits
/// of a wanted rate.
pub open spec fn comparable(modes: Seq<DisplayMode>, target: Resolution) -> bool {
    modes.len() > 0 && !bare_preferred(target) ==> match wanted_size(modes, target.size) {
        Some(size) => forall|i: int|
            0 <= i < modes.len() && fits(#[trigger] modes[i], size) ==> modes[i].timed() && (
            target.refresh matches RefreshSetting::Exact(mhz) ==> refresh_gap(modes[i], mhz)
                <= i32::MAX),
        None => true,
    }
}

/// The position of the preferred mode.
fn preferred_index(modes: &Vec<DisplayMode>) -> (found: usize)
    requires
        modes.len() > 0,
    ensures
        preferred_at(modes@, found as int),
        modes@[found as int] == preferred_mode(modes@),
{
    let mut i: usize = 0;
    while i < modes.len()
        invariant
            i <= modes.len(),
            forall|j: int| 0 <= j < i ==> !(#[trigger] modes@[j]).preferred(),
        decreases modes.len() - i,
    {
        if has_preferred(modes[i].mode_type) {
            proof {
                lemma_preferred_unique(modes@, i as int);
            }
            return i;
        }
        i += 1;
    }
    proof {
        assert(preferred_at(modes@, 0));
        lemma_preferred_unique(modes@, 0);
    }
    0
}

proof fn lemma_preferred_unique(modes: Seq<DisplayMode>, i: int)
    requires
        preferred_at(modes, i),
    ensures
        modes[i] == preferred_mode(modes),
{
    let k = choose|k: int| preferred_at(modes, k);
    assert(preferred_at(modes, k));
    if k < i {
        assert(!modes[k].preferred());
    } else if i < k {
        assert(!modes[i].preferred());
    }
}

/// The position of the largest progressive mode.
fn largest_index(modes: &Vec<DisplayMode>) -> (found: Option<usize>)
    ensures
        match found {
            Some(i) => largest_at(modes@, i as int) && modes@[i as int]
                == modes@[choose|i: int| largest_at(modes@, i)],
            None => !exists|i: int| largest_at(modes@, i),
        },
{
    let mut best: Option<usize> = None;
    let mut i: usize = 0;
    while i < modes.len()
        invariant
            i <= modes.len(),
            match best {
                Some(b) => b < i && largest_at(modes@.take(i as int), b as int),
                None => forall|j: int| 0 <= j < i ==> (#[trigger] modes@[j]).interlaced(),
            },
        decreases modes.len() - i,
    {
        let mode: DisplayMode = modes[i];
        let area: u64 = area_of(mode);
        if !has_interlace(mode.flags) {
            let replace: bool = match best {
                Some(b) => area >= area_of(modes[b]),
                None => true,
            };
            if replace {
                best = Some(i);
            }
        }
        proof {
            assert forall|j: int| 0 <= j < i implies modes@.take(i + 1)[j] == modes@.take(
                i as int,
            )[j] by {}
        }
        i += 1;
    }
    proof {
        assert(modes@.take(modes.len() as int) =~= modes@);
        match best {
            Some(b) => {
                let k = choose|k: int| largest_at(modes@, k);
                assert(largest_at(modes@, k));
            },
            None => {},
        }
    }
    best
}

/// The area of a mode.
fn area_of(mode: DisplayMode) -> (area: u64)
    ensures
        area == mode.area(),
{
    proof {
        assert(mode.hdisplay * mode.vdisplay <= 0xffff * 0xffff) by (nonlinear_arith)
            requires
                mode.hdisplay <= 0xffff,
                mode.vdisplay <= 0xffff,
        ;
        assert(0 <= mode.hdisplay * mode.vdisplay) by (nonlinear_arith);
    }
    mode.hdisplay as u64 * mode.vdisplay as u64
}

/// The position of the fastest mode of a size.
fn fastest_index(modes: &Vec<DisplayMode>, size: (u16, u16)) -> (found: Option<usize>)
    requires
        forall|i: int| 0 <= i < modes.len() && fits(#[trigger] modes@[i], size) ==> modes@[i].timed(),
    ensures
        match found {
            Some(i) => fastest_at(modes@, size, i as int) && modes@[i as int]
                == modes@[choose|i: int| fastest_at(modes@, size, i)],
            None => !exists|i: int| fastest_at(modes@, size, i),
        },
{
    let mut best: Option<usize> = None;
    let mut i: usize = 0;
    while i < modes.len()
        invariant
            i <= modes.len(),
            forall|i: int|
                0 <= i < modes.len() && fits(#[trigger] modes@[i], size) ==> modes@[i].timed(),
            match best {
                Some(b) => b < i && fastest_at(modes@.take(i as int), size, b as int),
                None => forall|j: int| 0 <= j < i ==> !fits(#[trigger] modes@[j], size),
            },
        decreases modes.len() - i,
    {
        let mode: DisplayMode = modes[i];
        let same: bool = mode.hdisplay == size.0 && mode.vdisplay == size.1;
        if !has_interlace(mode.flags) && same {
            let replace: bool = match best {
                Some(b) => {
                    assert(fits(modes@[b as int], size));
                    mode.to_mode().refresh >= modes[b].to_mode().refresh
                },
                None => true,
            };
            if replace {
                best = Some(i);
            }
        }
        proof {
            assert forall|j: int| 0 <= j < i implies modes@.take(i + 1)[j] == modes@.take(
                i as int,
            )[j] by {}
        }
        i += 1;
    }
    proof {
        assert(modes@.take(modes.len() as int) =~= modes@);
        match best {
            Some(b) => {
                let k = choose|k: int| fastest_at(modes@, size, k);
                assert(fastest_at(modes@, size, k));
            },
            None => {},
        }
    }
    best
}

/// How far a mode's rate is from `mhz`.
fn gap_to(mode: DisplayMode, mhz: i32) -> (gap: i32)
    requires
        mode.timed(),
        refresh_gap(mode, mhz) <= i32::MAX,
    ensures
        gap == refresh_gap(mode, mhz),
{
    let refresh: i32 = mode.to_mode().refresh;
    if refresh < mhz {
        mhz - refresh
    } else {
        refresh - mhz
    }
}

/// The position of the mode of a size whose rate is nearest to `mhz`.
fn nearest_index(modes: &Vec<DisplayMode>, size: (u16, u16), mhz: i32) -> (found: Option<usize>)
    requires
        forall|i: int|
            0 <= i < modes.len() && fits(#[trigger] modes@[i], size) ==> modes@[i].timed()
                && refresh_gap(modes@[i], mhz) <= i32::MAX,
    ensures
        match found {
            Some(i) => nearest_at(modes@, size, mhz, i as int) && modes@[i as int]
                == modes@[choose|i: int| nearest_at(modes@, size, mhz, i)],
            None => !exists|i: int| nearest_at(modes@, size, mhz, i),
        },
{
    let mut best: Option<usize> = None;
    let mut i: usize = 0;
    while i < modes.len()
        invariant
            i <= modes.len(),
            forall|i: int|
                0 <= i < modes.len() && fits(#[trigger] modes@[i], size) ==> modes@[i].timed()
                    && refresh_gap(modes@[i], mhz) <= i32::MAX,
            match best {
                Some(b) => b < i && nearest_at(modes@.take(i as int), size, mhz, b as int),
                None => forall|j: int| 0 <= j < i ==> !fits(#[trigger] modes@[j], size),
            },
        decreases modes.len() - i,
    {
        let mode: DisplayMode = modes[i];
        let same: bool = mode.hdisplay == size.0 && mode.vdisplay == size.1;
        if !has_interlace(mode.flags) && same {
            let replace: bool = match best {
                Some(b) => {
                    assert(fits(modes@[b as int], size));
                    gap_to(mode, mhz) < gap_to(modes[b], mhz)
                },
                None => true,
            };
            if replace {
                best = Some(i);
            }
        }
        proof {
            assert forall|j: int| 0 <= j < i implies modes@.take(i + 1)[j] == modes@.take(
                i as int,
            )[j] by {}
        }
        i += 1;
    }
    proof {
        assert(modes@.take(modes.len() as int) =~= modes@);
        match best {
            Some(b) => {
                let k = choose|k: int| nearest_at(modes@, size, mhz, k);
                assert(nearest_at(modes@, size, mhz, k));
            },
            None => {},
        }
    }
    best
}

/// The size that a setting asks of a list of modes.
fn size_wanted(modes: &Vec<DisplayMode>, setting: SizeSetting) -> (size: Option<(u16, u16)>)
    requires
        modes.len() > 0,
    ensures
        size == wanted_size(modes@, setting),
{
    match setting {
        SizeSetting::Preferred => Some(modes[preferred_index(modes)].size()),
        SizeSetting::Max => match largest_index(modes) {
            Some(i) => Some(modes[i].size()),
            None => None,
        },
        SizeSetting::Exact(w, h) => Some((w, h)),
    }
}

/// Tests whether the refresh rates that picking a mode compares can be
/// computed.
pub fn is_comparable(modes: &Vec<DisplayMode>, target: Resolution) -> (fine: bool)
    ensures
        fine == comparable(modes@, target),
{
    if modes.len() == 0 {
        return true;
    }
    let bare: bool = match (target.size, target.refresh) {
        (SizeSetting::Preferred, RefreshSetting::Auto) => true,
        _ => false,
    };
    if bare {
        return true;
    }
    let size: (u16, u16) = match size_wanted(modes, target.size) {
        Some(size) => size,
        None => return true,
    };
    let mut i: usize = 0;
    while i < modes.len()
        invariant
            i <= modes@.len(),
            modes@.len() > 0,
            !bare_preferred(target),
            wanted_size(modes@, target.size) == Some(size),
            forall|j: int|
                0 <= j < i && fits(#[trigger] modes@[j], size) ==> modes@[j].timed() && (
                target.refresh matches RefreshSetting::Exact(mhz) ==> refresh_gap(modes@[j], mhz)
                    <= i32::MAX),
        decreases modes@.len() - i,
    {
        let mode: DisplayMode = modes[i];
        if !has_interlace(mode.flags) && mode.hdisplay == size.0 && mode.vdisplay == size.1 {
            assert(fits(modes@[i as int], size));
            if !mode.has_totals() {
                return false;
            }
            if let RefreshSetting::Exact(mhz) = target.refresh {
                let gap: i64 = mode.to_mode().refresh as i64 - mhz as i64;
                if gap > 0x7fff_ffff || gap < -0x7fff_ffff {
                    return false;
                }
            }
        }
        i += 1;
    }
    true
}

/// Chooses the display mode of a connector for a configured resolution: the
/// size first, then the refresh rate among the progressive modes of that size.
/// The flag says that nothing matched and the preferred mode stands in, so
/// that a setting written for one monitor degrades gracefully on another.
pub fn pick_mode(connector: &ConnectorInfo, target: Resolution) -> (choice: Option<
    (DisplayMode, bool),
>)
    requires
        comparable(connector.modes@, target),
    ensures
        choice == picked(connector.modes@, target),
{
    let modes: &Vec<DisplayMode> = &connector.modes;
    if modes.len() == 0 {
        return None;
    }
    let preferred: DisplayMode = modes[preferred_index(modes)];
    let size: (u16, u16) = match size_wanted(modes, target.size) {
        Some(size) => size,
        None => return Some((preferred, true)),
    };
    let chosen: Option<DisplayMode> = match target.refresh {
        RefreshSetting::Auto => match target.size {
            SizeSetting::Preferred => Some(preferred),
            _ => match fastest_index(modes, size) {
                Some(i) => Some(modes[i]),
                None => None,
            },
        },
        RefreshSetting::Max => match fastest_index(modes, size) {
            Some(i) => Some(modes[i]),
            None => None,
        },
        RefreshSetting::Exact(mhz) => match nearest_index(modes, size, mhz) {
            Some(i) => if gap_to(modes[i], mhz) <= 1000 {
                Some(modes[i])
            } else {
                None
            },
            None => None,
        },
    };
    match chosen {
        Some(mode) => Some((mode, false)),
        None => Some((preferred, true)),
    }
}

proof fn lemma_preferred_exists(modes: Seq<DisplayMode>)
    requires
        modes.len() > 0,
    ensures
        exists|i: int| preferred_at(modes, i),
    decreases modes.len(),
{
    if modes.len() == 1 {
        assert(preferred_at(modes, 0));
    } else {
        lemma_preferred_exists(modes.drop_last());
        let i = choose|i: int| preferred_at(modes.drop_last(), i);
        assert forall|j: int| 0 <= j < modes.len() - 1 implies modes.drop_last()[j]
            == #[trigger] modes[j] by {}
        if modes[i].preferred() {
            assert(preferred_at(modes, i));
        } else if modes.last().preferred() {
            assert(preferred_at(modes, modes.len() - 1));
        } else {
            assert(preferred_at(modes, 0));
        }
    }
}

proof fn lemma_largest_exists(modes: Seq<DisplayMode>, k: int)
    requires
        0 <= k < modes.len(),
        !modes[k].interlaced(),
    ensures
        exists|i: int| largest_at(modes, i),
    decreases modes.len(),
{
    let front = modes.drop_last();
    let last = modes.len() - 1;
    assert forall|j: int| 0 <= j < last implies front[j] == #[trigger] modes[j] by {}
    if exists|j: int| 0 <= j < last && !(#[trigger] modes[j]).interlaced() {
        let j = choose|j: int| 0 <= j < last && !(#[trigger] modes[j]).interlaced();
        lemma_largest_exists(front, j);
        let i = choose|i: int| largest_at(front, i);
        if !modes[last].interlaced() && modes[last].area() >= modes[i].area() {
            assert(largest_at(modes, last));
        } else {
            assert(largest_at(modes, i));
        }
    } else {
        assert(largest_at(modes, k));
    }
}

proof fn lemma_fastest_exists(modes: Seq<DisplayMode>, size: (u16, u16), k: int)
    requires
        0 <= k < modes.len(),
        fits(modes[k], size),
    ensures
        exists|i: int| fastest_at(modes, size, i),
    decreases modes.len(),
{
    let front = modes.drop_last();
    let last = modes.len() - 1;
    assert forall|j: int| 0 <= j < last implies front[j] == #[trigger] modes[j] by {}
    if exists|j: int| 0 <= j < last && fits(#[trigger] modes[j], size) {
        let j = choose|j: int| 0 <= j < last && fits(#[trigger] modes[j], size);
        lemma_fastest_exists(front, size, j);
        let i = choose|i: int| fastest_at(front, size, i);
        if fits(modes[last], size) && modes[last].refresh_mhz() >= modes[i].refresh_mhz() {
            assert(fastest_at(modes, size, last));
        } else {
            assert(fastest_at(modes, size, i));
        }
    } else {
        assert(fastest_at(modes, size, k));
    }
}

proof fn lemma_nearest_exists(modes: Seq<DisplayMode>, size: (u16, u16), mhz: i32, k: int)
    requires
        0 <= k < modes.len(),
        fits(modes[k], size),
    ensures
        exists|i: int| nearest_at(modes, size, mhz, i),
    decreases modes.len(),
{
    let front = modes.drop_last();
    let last = modes.len() - 1;
    assert forall|j: int| 0 <= j < last implies front[j] == #[trigger] modes[j] by {}
    if exists|j: int| 0 <= j < last && fits(#[trigger] modes[j], size) {
        let j = choose|j: int| 0 <= j < last && fits(#[trigger] modes[j], size);
        lemma_nearest_exists(front, size, mhz, j);
        let i = choose|i: int| nearest_at(front, size, mhz, i);
        if fits(modes[last], size) && refresh_gap(modes[last], mhz) < refresh_gap(modes[i], mhz) {
            assert(nearest_at(modes, size, mhz, last));
        } else {
            assert(nearest_at(modes, size, mhz, i));
        }
    } else {
        assert(nearest_at(modes, size, mhz, k));
    }
}

/// A connector with modes always gets one of them; one without gets none. What
/// is used as a fallback is the preferred mode.
pub proof fn picked_mode_is_offered(modes: Seq<DisplayMode>, target: Resolution)
    ensures
        picked(modes, target) is Some <==> modes.len() > 0,
        picked(modes, target) matches Some((mode, fallback)) ==> modes.contains(mode) && (
        fallback ==> mode == preferred_mode(modes)),
{
    if modes.len() > 0 {
        lemma_preferred_exists(modes);
        assert(modes.contains(preferred_mode(modes)));
    }
}

/// The bare preferred setting means the preferred mode as it is, not its size
/// at the highest rate.
pub proof fn bare_preferred_is_taken_as_it_is(modes: Seq<DisplayMode>, target: Resolution)
    requires
        modes.len() > 0,
        bare_preferred(target),
    ensures
        picked(modes, target) == Some((preferred_mode(modes), false)),
{
}

/// Interlaced modes are skipped: short of the bare preferred mode and of the
/// fallback, the picked mode is progressive and of the wanted size.
pub proof fn picked_mode_is_progressive(modes: Seq<DisplayMode>, target: Resolution)
    requires
        !bare_preferred(target),
    ensures
        picked(modes, target) matches Some((mode, fallback)) ==> !fallback ==> !mode.interlaced()
            && wanted_size(modes, target.size) == Some(mode.dimensions()),
{
}

/// Where the largest size is wanted, no progressive mode has more area than
/// the picked one.
pub proof fn picked_mode_is_largest(modes: Seq<DisplayMode>, target: Resolution, other: DisplayMode)
    requires
        target.size is Max,
        modes.contains(other),
        !other.interlaced(),
    ensures
        picked(modes, target) matches Some((mode, fallback)) ==> !fallback ==> other.area()
            <= mode.area(),
{
    let k = choose|k: int| 0 <= k < modes.len() && modes[k] == other;
    lemma_largest_exists(modes, k);
}

/// Where no rate is named, the picked mode is the fastest progressive mode of
/// its size, and the fallback is used only where no progressive mode has the
/// wanted size.
pub proof fn picked_mode_is_fastest(modes: Seq<DisplayMode>, target: Resolution, other: DisplayMode)
    requires
        !bare_preferred(target),
        !(target.refresh is Exact),
        modes.contains(other),
        !other.interlaced(),
        wanted_size(modes, target.size) == Some(other.dimensions()),
    ensures
        picked(modes, target) matches Some((mode, fallback)) && !fallback && other.refresh_mhz()
            <= mode.refresh_mhz(),
{
    let k = choose|k: int| 0 <= k < modes.len() && modes[k] == other;
    lemma_fastest_exists(modes, other.dimensions(), k);
}

/// A named rate is met within one hertz or not at all: the fallback is used
/// exactly where no progressive mode of the wanted size is that near, and no
/// such mode is nearer than the picked one. In particular a mode of exactly
/// the named rate wins.
pub proof fn picked_mode_is_nearest(
    modes: Seq<DisplayMode>,
    target: Resolution,
    mhz: i32,
    other: DisplayMode,
)
    requires
        target.refresh == RefreshSetting::Exact(mhz),
        modes.contains(other),
        !other.interlaced(),
        wanted_size(modes, target.size) == Some(other.dimensions()),
    ensures
        refresh_gap(other, mhz) <= 1000 ==> (picked(modes, target) matches Some((_, fallback))
            && !fallback),
        picked(modes, target) matches Some((mode, fallback)) ==> !fallback ==> refresh_gap(mode, mhz)
            <= 1000 && refresh_gap(mode, mhz) <= refresh_gap(other, mhz),
{
    let size = other.dimensions();
    let k = choose|k: int| 0 <= k < modes.len() && modes[k] == other;
    lemma_nearest_exists(modes, size, mhz, k);
    let i = choose|i: int| nearest_at(modes, size, mhz, i);
    assert(nearest_at(modes, size, mhz, i));
    assert(fits(modes[k], size));
    assert(refresh_gap(modes[i], mhz) <= refresh_gap(modes[k], mhz));
    if refresh_gap(other, mhz) <= 1000 {
        assert(target.refresh matches RefreshSetting::Exact(rate) && rate == mhz);
    }
    if exists|n: int| #[trigger]
        nearest_at(modes, size, mhz, n) && refresh_gap(modes[n], mhz) <= 1000 {
        let n = choose|n: int| #[trigger]
            nearest_at(modes, size, mhz, n) && refresh_gap(modes[n], mhz) <= 1000;
        assert(fits(modes[n], size) && fits(modes[i], size));
    }
}

/// Clients see a mode's width and height as they are.
pub proof fn clients_see_the_size(mode: DisplayMode, seen: Mode)
    requires
        call_ensures(DisplayMode::to_mode, (&mode,), seen),
    ensures
        seen.size.w == mode.hdisplay,
        seen.size.h == mode.vdisplay,
{
}

/// A rate that is small enough stays as it is in 32 bits.
proof fn lemma_rate_fits(rate: int)
    requires
        0 <= rate <= i32::MAX,
    ensures
        (rate as u64) as i32 == rate,
{
}

/// How far the scan rate can be from the quotient that it rounds.
proof fn lemma_scan_rate(mode: DisplayMode)
    requires
        mode.htotal > 0,
        mode.vtotal > 0,
        mode.clock as int * 1_000_000 / mode.htotal as int <= 1_000_000_000,
    ensures
        ({
            let lines = mode.clock as int * 1_000_000 / mode.htotal as int;
            let rate = mode.scan_rate();
            &&& 0 <= rate <= 1_000_040_000
            &&& 2 * (lines - rate * mode.vtotal) < mode.vtotal
            &&& 2 * (rate * mode.vtotal - lines) <= mode.vtotal
        }),
{
    let lines = mode.clock as int * 1_000_000 / mode.htotal as int;
    let v = mode.vtotal as int;
    let rounded = lines + v / 2;
    let rate = rounded / v;
    assert(lines >= 0) by {
        vstd::arithmetic::div_mod::lemma_div_pos_is_pos(
            mode.clock as int * 1_000_000,
            mode.htotal as int,
        );
    }
    vstd::arithmetic::div_mod::lemma_div_pos_is_pos(rounded, v);
    vstd::arithmetic::div_mod::lemma_div_is_ordered_by_denominator(rounded, 1, v);
    vstd::arithmetic::div_mod::lemma_fundamental_div_mod(rounded, v);
    vstd::arithmetic::div_mod::lemma_mod_bound(rounded, v);
    vstd::arithmetic::mul::lemma_mul_is_commutative(rate, v);
}

/// The rate that clients see of a plain mode is its pixel clock divided by its
/// totals, rounded to the nearest millihertz, halves upwards.
pub proof fn clients_see_the_rounded_rate(mode: DisplayMode, seen: Mode)
    requires
        call_ensures(DisplayMode::to_mode, (&mode,), seen),
        mode.htotal > 0,
        mode.vtotal > 0,
        mode.flags & 16 != 16,
        mode.flags & 32 != 32,
        mode.vscan <= 1,
        mode.clock as int * 1_000_000 / mode.htotal as int <= 1_000_000_000,
    ensures
        ({
            let lines = mode.clock as int * 1_000_000 / mode.htotal as int;
            &&& 2 * (lines - seen.refresh * mode.vtotal) < mode.vtotal
            &&& 2 * (seen.refresh * mode.vtotal - lines) <= mode.vtotal
        }),
{
    lemma_scan_rate(mode);
    assert(mode.frame_rate() == mode.scan_rate());
    lemma_rate_fits(mode.frame_rate());
}

/// Interlacing doubles the rate, scanning every line twice halves it, and both
/// together leave it as it is.
pub proof fn scanning_changes_the_rate(plain: DisplayMode, mode: DisplayMode, a: Mode, b: Mode)
    requires
        call_ensures(DisplayMode::to_mode, (&plain,), a),
        call_ensures(DisplayMode::to_mode, (&mode,), b),
        mode == (DisplayMode { flags: mode.flags, ..plain }),
        plain.flags & 16 != 16,
        plain.flags & 32 != 32,
        plain.vscan <= 1,
        plain.htotal > 0,
        plain.vtotal > 0,
        plain.clock as int * 1_000_000 / plain.htotal as int <= 1_000_000_000,
    ensures
        mode.flags & 16 == 16 && mode.flags & 32 != 32 ==> b.refresh == 2 * a.refresh,
        mode.flags & 16 != 16 && mode.flags & 32 == 32 ==> 2 * b.refresh <= a.refresh < 2
            * b.refresh + 2,
        (mode.flags & 16 == 16 <==> mode.flags & 32 == 32) ==> b.refresh == a.refresh,
{
    lemma_scan_rate(plain);
    let rate = plain.scan_rate();
    assert(mode.scan_rate() == rate);
    assert(plain.frame_rate() == rate);
    lemma_rate_fits(plain.frame_rate());
    lemma_rate_fits(mode.frame_rate());
}

/// Scanning every line several times divides the rate by that number.
pub proof fn repeated_lines_divide_the_rate(once: DisplayMode, mode: DisplayMode, a: Mode, b: Mode)
    requires
        call_ensures(DisplayMode::to_mode, (&once,), a),
        call_ensures(DisplayMode::to_mode, (&mode,), b),
        mode == (DisplayMode { vscan: mode.vscan, ..once }),
        once.vscan <= 1,
        once.htotal > 0,
        once.vtotal > 0,
        once.clock as int * 1_000_000 / once.htotal as int <= 1_000_000_000,
    ensures
        mode.vscan <= 1 ==> b.refresh == a.refresh,
        mode.vscan > 1 ==> b.refresh * mode.vscan <= a.refresh < (b.refresh + 1) * mode.vscan,
{
    lemma_scan_rate(once);
    assert(mode.scan_rate() == once.scan_rate());
    let rate = once.frame_rate();
    lemma_rate_fits(rate);
    if mode.vscan > 1 {
        let n = mode.vscan as int;
        vstd::arithmetic::div_mod::lemma_div_pos_is_pos(rate, n);
        vstd::arithmetic::div_mod::lemma_div_is_ordered_by_denominator(rate, 1, n);
        vstd::arithmetic::div_mod::lemma_fundamental_div_mod(rate, n);
        vstd::arithmetic::div_mod::lemma_mod_bound(rate, n);
        assert(mode.frame_rate() == rate / n);
        lemma_rate_fits(mode.frame_rate());
        let q = rate / n;
        assert(q * n <= rate < (q + 1) * n) by (nonlinear_arith)
            requires
                rate == n * q + rate % n,
                0 <= rate % n < n,
        ;
    }
}

/// Whether the mode at position `i` is the monitor's first choice: the first
/// one that carries the mark, or the first of all where none does.
pub open spec fn first_choice(modes: Seq<DisplayMode>, i: int) -> bool {
    &&& 0 <= i < modes.len()
    &&& forall|j: int| 0 <= j < i ==> (#[trigger] modes[j]).mode_type & 8 != 8
    &&& modes[i].mode_type & 8 == 8 || (i == 0 && forall|j: int|
        0 <= j < modes.len() ==> (#[trigger] modes[j]).mode_type & 8 != 8)
}

/// Whether no progressive mode has more pixels than the one at position `i`,
/// which is progressive itself, and none after it has as many.
pub open spec fn most_pixels(modes: Seq<DisplayMode>, i: int) -> bool {
    &&& 0 <= i < modes.len()
    &&& modes[i].flags & 16 != 16
    &&& forall|j: int|
        0 <= j < modes.len() && (#[trigger] modes[j]).flags & 16 != 16 ==> modes[j].hdisplay
            * modes[j].vdisplay <= modes[i].hdisplay * modes[i].vdisplay
    &&& forall|j: int|
        i < j < modes.len() && (#[trigger] modes[j]).flags & 16 != 16 ==> modes[j].hdisplay
            * modes[j].vdisplay < modes[i].hdisplay * modes[i].vdisplay
}

/// Whether two modes have the same width and height.
pub open spec fn same_size(a: DisplayMode, b: DisplayMode) -> bool {
    a.hdisplay == b.hdisplay && a.vdisplay == b.vdisplay
}

/// Whether a progressive mode is of the size that a setting names.
pub open spec fn answers_size(modes: Seq<DisplayMode>, setting: SizeSetting, mode: DisplayMode) -> bool {
    &&& mode.flags & 16 != 16
    &&& match setting {
        SizeSetting::Preferred => exists|i: int| #[trigger]
            first_choice(modes, i) && same_size(modes[i], mode),
        SizeSetting::Max => exists|i: int| #[trigger]
            most_pixels(modes, i) && same_size(modes[i], mode),
        SizeSetting::Exact(w, h) => mode.hdisplay == w && mode.vdisplay == h,
    }
}

proof fn lemma_first_choice(modes: Seq<DisplayMode>, i: int)
    ensures
        first_choice(modes, i) <==> preferred_at(modes, i),
{
}

proof fn lemma_most_pixels(modes: Seq<DisplayMode>, i: int)
    ensures
        most_pixels(modes, i) <==> largest_at(modes, i),
{
    if largest_at(modes, i) {
        assert forall|j: int|
            0 <= j < modes.len() && (#[trigger] modes[j]).flags & 16 != 16 implies modes[j].hdisplay
            * modes[j].vdisplay <= modes[i].hdisplay * modes[i].vdisplay by {
            assert(!modes[j].interlaced());
        }
        assert forall|j: int|
            i < j < modes.len() && (#[trigger] modes[j]).flags & 16 != 16 implies modes[j].hdisplay
            * modes[j].vdisplay < modes[i].hdisplay * modes[i].vdisplay by {
            assert(!modes[j].interlaced());
        }
    }
    if most_pixels(modes, i) {
        assert forall|j: int|
            0 <= j < modes.len() && !(#[trigger] modes[j]).interlaced() implies modes[j].area()
            < modes[i].area() || (modes[j].area() == modes[i].area() && j <= i) by {
            assert(modes[j].flags & 16 != 16);
        }
    }
}

proof fn lemma_answers_size(modes: Seq<DisplayMode>, setting: SizeSetting, mode: DisplayMode)
    requires
        modes.len() > 0,
    ensures
        answers_size(modes, setting, mode) <==> !mode.interlaced() && wanted_size(modes, setting)
            == Some(mode.dimensions()),
{
    match setting {
        SizeSetting::Preferred => {
            lemma_preferred_exists(modes);
            let p = choose|p: int| preferred_at(modes, p);
            lemma_preferred_unique(modes, p);
            lemma_first_choice(modes, p);
            if answers_size(modes, setting, mode) {
                let i = choose|i: int| #[trigger]
                    first_choice(modes, i) && same_size(modes[i], mode);
                lemma_first_choice(modes, i);
                lemma_preferred_unique(modes, i);
            }
            if !mode.interlaced() && wanted_size(modes, setting) == Some(mode.dimensions()) {
                assert(first_choice(modes, p) && same_size(modes[p], mode));
            }
        },
        SizeSetting::Max => {
            if exists|i: int| largest_at(modes, i) {
                let k = choose|i: int| largest_at(modes, i);
                assert(largest_at(modes, k));
                lemma_most_pixels(modes, k);
                if answers_size(modes, setting, mode) {
                    let i = choose|i: int| #[trigger]
                        most_pixels(modes, i) && same_size(modes[i], mode);
                    lemma_most_pixels(modes, i);
                    assert(largest_at(modes, i));
                    assert(!modes[i].interlaced() && !modes[k].interlaced());
                    assert(i == k);
                }
                if !mode.interlaced() && wanted_size(modes, setting) == Some(mode.dimensions()) {
                    assert(most_pixels(modes, k) && same_size(modes[k], mode));
                }
            } else if answers_size(modes, setting, mode) {
                let i = choose|i: int| #[trigger]
                    most_pixels(modes, i) && same_size(modes[i], mode);
                lemma_most_pixels(modes, i);
            }
        },
        SizeSetting::Exact(w, h) => {},
    }
}

/// What a monitor without modes is given is nothing. The bare preferred setting
/// means the monitor's first choice, which is also what stands in where nothing
/// matches.
pub proof fn the_first_choice_stands_in(
    connector: ConnectorInfo,
    target: Resolution,
    choice: Option<(DisplayMode, bool)>,
)
    requires
        call_ensures(pick_mode, (&connector, target), choice),
    ensures
        choice is None <==> connector.modes@.len() == 0,
        target.size is Preferred && target.refresh is Auto ==> (choice matches Some((_, fallback))
            ==> !fallback),
        choice matches Some((mode, fallback)) ==> (fallback || (target.size is Preferred
            && target.refresh is Auto)) ==> exists|i: int| #[trigger]
            first_choice(connector.modes@, i) && connector.modes@[i] == mode,
{
    let modes = connector.modes@;
    if modes.len() > 0 {
        lemma_preferred_exists(modes);
        let p = choose|p: int| preferred_at(modes, p);
        lemma_preferred_unique(modes, p);
        lemma_first_choice(modes, p);
    }
}

/// A mode that matches is progressive, on offer, and of the size that the
/// setting names: the monitor's first choice, the most pixels, or exactly this
/// width and height.
pub proof fn the_picked_mode_has_the_named_size(
    connector: ConnectorInfo,
    target: Resolution,
    mode: DisplayMode,
)
    requires
        call_ensures(pick_mode, (&connector, target), Some((mode, false))),
        !(target.size is Preferred && target.refresh is Auto),
    ensures
        connector.modes@.contains(mode),
        answers_size(connector.modes@, target.size, mode),
{
    let modes = connector.modes@;
    assert(picked(modes, target) == Some((mode, false)));
    picked_mode_is_progressive(modes, target);
    picked_mode_is_offered(modes, target);
    lemma_answers_size(modes, target.size, mode);
}

/// Where no rate is named, any progressive mode of the named size is a match.
/// The one that is picked is the fastest of them, and of several that are as
/// fast the last.
pub proof fn the_picked_mode_is_the_last_of_the_fastest(
    connector: ConnectorInfo,
    target: Resolution,
    choice: Option<(DisplayMode, bool)>,
    k: int,
)
    requires
        call_ensures(pick_mode, (&connector, target), choice),
        !(target.size is Preferred && target.refresh is Auto),
        !(target.refresh is Exact),
        0 <= k < connector.modes@.len(),
        answers_size(connector.modes@, target.size, connector.modes@[k]),
    ensures
        choice matches Some((mode, fallback)) && !fallback && connector.modes@[k].refresh_mhz()
            <= mode.refresh_mhz() && exists|i: int|
            0 <= i < connector.modes@.len() && #[trigger] connector.modes@[i] == mode && (
            connector.modes@[k].refresh_mhz() == mode.refresh_mhz() ==> k <= i),
{
    let modes = connector.modes@;
    let other = modes[k];
    let size = other.dimensions();
    lemma_answers_size(modes, target.size, other);
    lemma_fastest_exists(modes, size, k);
    let i = choose|i: int| fastest_at(modes, size, i);
    assert(fastest_at(modes, size, i));
    assert(fits(modes[k], size));
    assert(choice == Some((modes[i], false)));
}

/// Where a rate is named, a progressive mode of the named size within a
/// thousand millihertz of it, above or below, is a match. Without one the
/// fallback is used; else what is picked is that near too, no such mode is
/// nearer, and of several that are as near it is the first.
pub proof fn the_picked_mode_is_the_first_of_the_nearest(
    connector: ConnectorInfo,
    target: Resolution,
    mhz: i32,
    choice: Option<(DisplayMode, bool)>,
    k: int,
)
    requires
        call_ensures(pick_mode, (&connector, target), choice),
        target.refresh == RefreshSetting::Exact(mhz),
        0 <= k < connector.modes@.len(),
        answers_size(connector.modes@, target.size, connector.modes@[k]),
    ensures
        ({
            let rate = connector.modes@[k].refresh_mhz();
            &&& choice matches Some((mode, fallback))
            &&& mhz - 1000 <= rate <= mhz + 1000 ==> !fallback
            &&& !fallback ==> {
                let found = mode.refresh_mhz();
                &&& mhz - 1000 <= found <= mhz + 1000
                // Nothing lies strictly nearer, on either side.
                &&& found >= mhz ==> rate >= found || rate <= mhz - (found - mhz)
                &&& found <= mhz ==> rate <= found || rate >= mhz + (mhz - found)
                &&& exists|i: int|
                    0 <= i < connector.modes@.len() && #[trigger] connector.modes@[i] == mode && (
                    rate - mhz == found - mhz || rate - mhz == mhz - found ==> i <= k)
            }
        }),
{
    let modes = connector.modes@;
    let other = modes[k];
    let size = other.dimensions();
    lemma_answers_size(modes, target.size, other);
    picked_mode_is_nearest(modes, target, mhz, other);
    lemma_nearest_exists(modes, size, mhz, k);
    let i = choose|i: int| nearest_at(modes, size, mhz, i);
    assert(nearest_at(modes, size, mhz, i));
    assert(fits(modes[k], size));
    if let Some((mode, fallback)) = choice {
        if !fallback {
            assert(mode == modes[i]);
        }
    }
}

/// A rate that is named is met within a thousand millihertz, above or below, or
/// the fallback is used.
pub proof fn a_named_rate_is_met_or_nothing_matches(
    connector: ConnectorInfo,
    target: Resolution,
    mhz: i32,
    mode: DisplayMode,
)
    requires
        call_ensures(pick_mode, (&connector, target), Some((mode, false))),
        target.refresh == RefreshSetting::Exact(mhz),
    ensures
        mhz - 1000 <= mode.refresh_mhz() <= mhz + 1000,
{
    let modes = connector.modes@;
    the_picked_mode_has_the_named_size(connector, target, mode);
    let k = choose|k: int| 0 <= k < modes.len() && modes[k] == mode;
    the_picked_mode_is_the_first_of_the_nearest(
        connector,
        target,
        mhz,
        Some((mode, false)),
        k,
    );
}

/// A mode can be picked from any modes that have totals, and whose rates are
/// within 32 bits of a rate that is named.
pub proof fn timed_modes_can_be_picked_from(connector: ConnectorInfo, target: Resolution, fine: bool)
    requires
        call_ensures(is_comparable, (&connector.modes, target), fine),
        forall|i: int|
            0 <= i < connector.modes@.len() ==> {
                let mode = #[trigger] connector.modes@[i];
                &&& mode.htotal > 0
                &&& mode.vtotal > 0
                &&& target.refresh matches RefreshSetting::Exact(mhz) ==> mhz - i32::MAX
                    <= mode.refresh_mhz() <= mhz + i32::MAX
            },
    ensures
        fine,
        call_requires(pick_mode, (&connector, target)),
{
    assert(comparable(connector.modes@, target));
}

} // verus!
