//! Buffer formats for scanout.

use vstd::prelude::*;

verus! {

/// A buffer format: the pixel layout by its four-character code, and the
/// tiling by its modifier.
#[derive(Clone, Copy, Debug, PartialEq, Eq, Structural)]
pub struct Format {
    pub code: u32,
    pub modifier: u64,
}

/// Whether a modifier stands for linear buffers: `DrmModifier::from` of the
/// `drm` crate, compared with `DrmModifier::Linear`. Claims that this is the
/// modifier of value 0, and no other.
#[verifier::external_body]
fn is_linear(modifier: u64) -> (linear: bool)
    ensures
        linear == (modifier == 0),
{
    drm::buffer::DrmModifier::from(modifier) == drm::buffer::DrmModifier::Linear
}

/// Whether a modifier is the invalid one, which leaves the tiling to the
/// driver: `DrmModifier::from` of the `drm` crate, compared with
/// `DrmModifier::Invalid`. Claims that this is the modifier of value
/// 2^56 - 1, and no other.
#[verifier::external_body]
fn is_invalid(modifier: u64) -> (invalid: bool)
    ensures
        invalid == (modifier == 0x00ff_ffff_ffff_ffff),
{
    drm::buffer::DrmModifier::from(modifier) == drm::buffer::DrmModifier::Invalid
}

impl Format {
    /// Whether buffers of this format are linear, and so can be handed from
    /// one GPU to another.
    pub open spec fn linear(self) -> bool {
        self.modifier == 0
    }

    /// Whether the tiling is left to the driver.
    pub open spec fn implicit(self) -> bool {
        self.modifier == 0x00ff_ffff_ffff_ffff
    }
}

/// Which formats can be scanned out on a device.
pub open spec fn usable(can_render: bool) -> spec_fn(Format) -> bool {
    |format: Format| can_render || format.linear()
}

/// Which formats leave the tiling to the driver.
pub open spec fn left_to_driver() -> spec_fn(Format) -> bool {
    |format: Format| format.implicit()
}

/// The formats to negotiate for the scanout buffers of an output. They are
/// those of the GPU that renders its frames; a display-only device imports
/// them, and linear is the safe choice across devices.
pub fn scanout_formats(formats: &Vec<Format>, can_render: bool) -> (kept: Vec<Format>)
    ensures
        kept@ == formats@.filter(usable(can_render)),
{
    let mut kept: Vec<Format> = Vec::new();
    let mut i: usize = 0;
    assert(formats@.take(0).filter(usable(can_render)) =~= Seq::empty()) by {
        reveal(Seq::filter);
    }
    while i < formats.len()
        invariant
            i <= formats@.len(),
            kept@ == formats@.take(i as int).filter(usable(can_render)),
        decreases formats@.len() - i,
    {
        let format: Format = formats[i];
        proof {
            reveal(Seq::filter);
            assert(formats@.take(i + 1).drop_last() =~= formats@.take(i as int));
        }
        if can_render || is_linear(format.modifier) {
            kept.push(format);
        }
        i += 1;
    }
    assert(formats@.take(i as int) =~= formats@);
    kept
}

/// The formats of these that leave the tiling to the driver.
pub fn implicit_formats(formats: &Vec<Format>) -> (kept: Vec<Format>)
    ensures
        kept@ == formats@.filter(left_to_driver()),
{
    let mut kept: Vec<Format> = Vec::new();
    let mut i: usize = 0;
    assert(formats@.take(0).filter(left_to_driver()) =~= Seq::empty()) by {
        reveal(Seq::filter);
    }
    while i < formats.len()
        invariant
            i <= formats@.len(),
            kept@ == formats@.take(i as int).filter(left_to_driver()),
        decreases formats@.len() - i,
    {
        let format: Format = formats[i];
        proof {
            reveal(Seq::filter);
            assert(formats@.take(i + 1).drop_last() =~= formats@.take(i as int));
        }
        if is_invalid(format.modifier) {
            kept.push(format);
        }
        i += 1;
    }
    assert(formats@.take(i as int) =~= formats@);
    kept
}

/// Which attempt at setting up the scanout of an output.
#[derive(Clone, Copy, Debug, PartialEq, Eq, Structural)]
pub enum Attempt {
    First,
    Second,
}

/// What comes after an attempt at setting up the scanout of an output.
#[derive(Debug)]
pub enum AttemptResult {
    /// The scanout is set up.
    Done,
    /// Try again from the start with these formats.
    Retry { formats: Vec<Format> },
    /// Give up.
    GiveUp,
}

/// Takes in an attempt at setting up the scanout of an output. Negotiating a
/// tiling can fail, so a first failure leads to a second attempt that leaves
/// the tiling to the driver.
pub fn scanout_attempted(attempt: Attempt, succeeded: bool, formats: &Vec<Format>) -> (result:
    AttemptResult)
    ensures
        result is Done <==> succeeded,
        result is GiveUp <==> !succeeded && attempt == Attempt::Second,
        result matches AttemptResult::Retry { formats: retried } ==> retried@ == formats@.filter(
            left_to_driver(),
        ),
{
    if succeeded {
        AttemptResult::Done
    } else {
        match attempt {
            Attempt::First => AttemptResult::Retry { formats: implicit_formats(formats) },
            Attempt::Second => AttemptResult::GiveUp,
        }
    }
}

/// A display-only device is only ever handed linear buffers, and a device that
/// can render negotiates over everything its GPU offers.
pub proof fn buffers_cross_devices_linear(formats: Seq<Format>, format: Format)
    ensures
        formats.filter(usable(false)).contains(format) <==> formats.contains(format)
            && format.linear(),
        formats.filter(usable(true)).contains(format) <==> formats.contains(format),
{
    crate::state::lemma_filter_members(formats, usable(false), format);
    crate::state::lemma_filter_members(formats, usable(true), format);
}

/// The second attempt on a display-only device has no formats left: what is
/// linear is not left to the driver.
pub proof fn display_only_devices_have_one_attempt(formats: Seq<Format>)
    ensures
        formats.filter(usable(false)).filter(left_to_driver()) == Seq::<Format>::empty(),
{
    let left = formats.filter(usable(false)).filter(left_to_driver());
    if left.len() > 0 {
        crate::state::lemma_filter_members(formats.filter(usable(false)), left_to_driver(), left[0]);
        crate::state::lemma_filter_members(formats, usable(false), left[0]);
    }
}

/// A device that can render negotiates over everything on offer, in its order;
/// one that cannot, over the linear formats alone.
pub proof fn scanout_formats_fit_the_device(
    formats: Vec<Format>,
    can_render: bool,
    kept: Vec<Format>,
    format: Format,
)
    requires
        call_ensures(scanout_formats, (&formats, can_render), kept),
    ensures
        kept@.contains(format) <==> formats@.contains(format) && (can_render || format.modifier
            == 0),
        crate::space::subsequence(kept@, formats@),
        can_render ==> kept@.len() == formats@.len(),
{
    crate::state::lemma_filter_members(formats@, usable(can_render), format);
    crate::space::lemma_filter_in_order(formats@, usable(can_render));
    if can_render {
        lemma_all_usable(formats@);
    }
}

proof fn lemma_all_usable(formats: Seq<Format>)
    ensures
        formats.filter(usable(true)).len() == formats.len(),
    decreases formats.len(),
{
    reveal(Seq::filter);
    if formats.len() > 0 {
        lemma_all_usable(formats.drop_last());
    }
}

/// What is left to the driver is exactly what carries the invalid modifier.
pub proof fn implicit_formats_carry_the_invalid_modifier(
    formats: Vec<Format>,
    kept: Vec<Format>,
    format: Format,
)
    requires
        call_ensures(implicit_formats, (&formats,), kept),
    ensures
        kept@.contains(format) <==> formats@.contains(format) && format.modifier
            == 0x00ff_ffff_ffff_ffff,
        crate::space::subsequence(kept@, formats@),
{
    crate::state::lemma_filter_members(formats@, left_to_driver(), format);
    crate::space::lemma_filter_in_order(formats@, left_to_driver());
}

/// A first failure leads to a second attempt with the formats that are left to
/// the driver, and a second one to none.
pub proof fn one_failure_is_forgiven(
    attempt: Attempt,
    succeeded: bool,
    formats: Vec<Format>,
    result: AttemptResult,
    kept: Vec<Format>,
)
    requires
        call_ensures(scanout_attempted, (attempt, succeeded, &formats), result),
        call_ensures(implicit_formats, (&formats,), kept),
    ensures
        succeeded <==> result is Done,
        !succeeded && attempt is First <==> result is Retry,
        !succeeded && attempt is Second <==> result is GiveUp,
        result matches AttemptResult::Retry { formats: retried } ==> retried@ == kept@,
{
}

} // verus!
