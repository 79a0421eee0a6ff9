use takhti::mode::{
    is_comparable, pick_mode, ConnectorInfo, DisplayMode, ModeName, RefreshSetting, Resolution,
    SizeSetting,
};

const INTERLACE: u32 = 16;
const DBLSCAN: u32 = 32;
const PREFERRED: u32 = 8;

fn mode(w: u16, h: u16, clock: u32, htotal: u16, vtotal: u16) -> DisplayMode {
    DisplayMode {
        clock,
        hdisplay: w,
        hsync_start: 0,
        hsync_end: 0,
        htotal,
        hskew: 0,
        vdisplay: h,
        vsync_start: 0,
        vsync_end: 0,
        vtotal,
        vscan: 0,
        vrefresh: 60,
        flags: 0,
        mode_type: 0,
        name: ModeName { first: 0, second: 0, third: 0, fourth: 0 },
    }
}

fn full_hd_60() -> DisplayMode {
    mode(1920, 1080, 148_500, 2200, 1125)
}

fn full_hd_59_94() -> DisplayMode {
    mode(1920, 1080, 148_352, 2200, 1125)
}

fn full_hd_144() -> DisplayMode {
    mode(1920, 1080, 356_400, 2200, 1125)
}

fn full_hd_interlaced() -> DisplayMode {
    let mut interlaced = mode(1920, 1080, 74_250, 2200, 1125);
    interlaced.flags = INTERLACE;
    interlaced
}

fn hd_60() -> DisplayMode {
    mode(1280, 720, 74_250, 1650, 750)
}

fn preferred(mut mode: DisplayMode) -> DisplayMode {
    mode.mode_type = PREFERRED;
    mode
}

fn connector(modes: Vec<DisplayMode>) -> ConnectorInfo {
    ConnectorInfo { interface: 10, interface_id: 1, size: None, modes }
}

fn pick(modes: Vec<DisplayMode>, size: SizeSetting, refresh: RefreshSetting) -> Option<(DisplayMode, bool)> {
    let target = Resolution { size, refresh };
    assert!(is_comparable(&modes, target));
    pick_mode(&connector(modes), target)
}

#[test]
fn refresh_rates_are_in_millihertz() {
    assert_eq!(full_hd_60().to_mode().refresh, 60_000);
    assert_eq!(full_hd_144().to_mode().refresh, 144_000);
    assert_eq!(full_hd_59_94().to_mode().refresh, 59_940);
    assert_eq!(hd_60().to_mode().refresh, 60_000);
    let size = full_hd_60().to_mode().size;
    assert_eq!((size.w, size.h), (1920, 1080));
}

#[test]
fn interlacing_doubles_the_rate_and_double_scan_halves_it() {
    assert_eq!(full_hd_interlaced().to_mode().refresh, 60_000);
    let mut doubled = full_hd_60();
    doubled.flags = DBLSCAN;
    assert_eq!(doubled.to_mode().refresh, 30_000);
    let mut both = full_hd_60();
    both.flags = DBLSCAN | INTERLACE;
    assert_eq!(both.to_mode().refresh, 60_000);
}

#[test]
fn repeated_lines_divide_the_rate() {
    let mut slow = full_hd_60();
    slow.vscan = 3;
    assert_eq!(slow.to_mode().refresh, 20_000);
    slow.vscan = 1;
    assert_eq!(slow.to_mode().refresh, 60_000);
}

#[test]
fn no_modes_no_choice() {
    assert_eq!(pick(vec![], SizeSetting::Preferred, RefreshSetting::Auto), None);
}

#[test]
fn bare_preferred_is_the_marked_mode() {
    let modes = vec![full_hd_144(), preferred(full_hd_60()), preferred(hd_60())];
    assert_eq!(
        pick(modes, SizeSetting::Preferred, RefreshSetting::Auto),
        Some((preferred(full_hd_60()), false))
    );
}

#[test]
fn bare_preferred_may_be_interlaced() {
    let modes = vec![preferred(full_hd_interlaced()), full_hd_60()];
    assert_eq!(
        pick(modes, SizeSetting::Preferred, RefreshSetting::Auto),
        Some((preferred(full_hd_interlaced()), false))
    );
}

#[test]
fn the_first_mode_stands_in_for_a_preferred_one() {
    let modes = vec![hd_60(), full_hd_60()];
    assert_eq!(
        pick(modes, SizeSetting::Preferred, RefreshSetting::Auto),
        Some((hd_60(), false))
    );
}

#[test]
fn preferred_size_at_the_highest_rate() {
    let modes = vec![preferred(full_hd_60()), full_hd_144(), hd_60()];
    assert_eq!(
        pick(modes, SizeSetting::Preferred, RefreshSetting::Max),
        Some((full_hd_144(), false))
    );
}

#[test]
fn the_largest_area_wins() {
    let modes = vec![preferred(hd_60()), full_hd_60(), full_hd_144()];
    assert_eq!(pick(modes, SizeSetting::Max, RefreshSetting::Auto), Some((full_hd_144(), false)));
}

#[test]
fn interlaced_modes_are_skipped() {
    let modes = vec![preferred(hd_60()), full_hd_interlaced()];
    assert_eq!(
        pick(modes, SizeSetting::Max, RefreshSetting::Auto),
        Some((preferred(hd_60()), false))
    );
    let only = vec![full_hd_interlaced()];
    assert_eq!(
        pick(only, SizeSetting::Max, RefreshSetting::Auto),
        Some((full_hd_interlaced(), true))
    );
}

#[test]
fn an_exact_size_has_to_be_there() {
    let modes = vec![preferred(full_hd_60()), hd_60()];
    assert_eq!(
        pick(modes, SizeSetting::Exact(1280, 720), RefreshSetting::Auto),
        Some((hd_60(), false))
    );
    let modes = vec![preferred(full_hd_60()), hd_60()];
    assert_eq!(
        pick(modes, SizeSetting::Exact(640, 480), RefreshSetting::Auto),
        Some((preferred(full_hd_60()), true))
    );
}

#[test]
fn sixty_matches_fifty_nine_ninety_four() {
    let modes = vec![preferred(full_hd_144()), full_hd_59_94()];
    assert_eq!(
        pick(modes, SizeSetting::Preferred, RefreshSetting::Exact(60_000)),
        Some((full_hd_59_94(), false))
    );
}

#[test]
fn an_exact_rate_goes_before_a_near_one() {
    let modes = vec![preferred(full_hd_144()), full_hd_59_94(), full_hd_60()];
    assert_eq!(
        pick(modes, SizeSetting::Preferred, RefreshSetting::Exact(60_000)),
        Some((full_hd_60(), false))
    );
}

#[test]
fn a_rate_further_off_than_a_hertz_falls_back() {
    let modes = vec![preferred(full_hd_144()), full_hd_60()];
    assert_eq!(
        pick(modes, SizeSetting::Preferred, RefreshSetting::Exact(61_001)),
        Some((preferred(full_hd_144()), true))
    );
    let modes = vec![preferred(full_hd_144()), full_hd_60()];
    assert_eq!(
        pick(modes, SizeSetting::Preferred, RefreshSetting::Exact(61_000)),
        Some((full_hd_60(), false))
    );
}

#[test]
fn ties_go_to_the_last_fastest_and_the_first_nearest() {
    let mut other = full_hd_60();
    other.hskew = 1;
    let modes = vec![full_hd_60(), other];
    assert_eq!(pick(modes, SizeSetting::Max, RefreshSetting::Max), Some((other, false)));
    let modes = vec![full_hd_60(), other];
    assert_eq!(
        pick(modes, SizeSetting::Max, RefreshSetting::Exact(60_000)),
        Some((full_hd_60(), false))
    );
}

#[test]
fn what_cannot_be_compared_is_told() {
    let untimed = mode(1920, 1080, 148_500, 0, 1125);
    let bare = Resolution { size: SizeSetting::Preferred, refresh: RefreshSetting::Auto };
    let fastest = Resolution { size: SizeSetting::Preferred, refresh: RefreshSetting::Max };
    let elsewhere = Resolution { size: SizeSetting::Exact(1280, 720), refresh: RefreshSetting::Max };
    assert!(is_comparable(&vec![untimed], bare));
    assert!(!is_comparable(&vec![untimed], fastest));
    assert!(is_comparable(&vec![untimed], elsewhere));
    let far = Resolution { size: SizeSetting::Preferred, refresh: RefreshSetting::Exact(i32::MIN) };
    assert!(!is_comparable(&vec![full_hd_60()], far));
    assert!(!untimed.has_totals());
    assert!(full_hd_60().has_totals());
}
