//! Window decorations: the bookkeeping that keeps borders, shadows and corners
//! in step with the windows. Where windows go is decided elsewhere.

use std::collections::HashMap;

use vstd::prelude::*;

use crate::damage::ExtraDamage;
use crate::geometry::Size;

verus! {

broadcast use vstd::std_specs::hash::group_hash_axioms;

/// A colour: the bit patterns of its four channels.
#[derive(Clone, Copy, Debug, PartialEq, Eq, Structural)]
pub struct Color {
    pub red: u32,
    pub green: u32,
    pub blue: u32,
    pub alpha: u32,
}

/// The part of the settings that decorations go by.
#[derive(Clone, Copy, Debug, PartialEq, Eq, Structural)]
pub struct DecorationSettings {
    pub border_width: i32,
    pub corner_radius: i32,
    pub border_focused: Color,
    pub border_unfocused: Color,
    pub shadow_color: Color,
    pub shadow_range: i32,
    pub shadow_power: i32,
}

/// What a single window has in place of the settings.
#[derive(Clone, Copy, Debug, PartialEq, Eq, Structural)]
pub struct WindowProperties {
    pub radius: Option<i32>,
    pub border_focused: Option<Color>,
    pub border_unfocused: Option<Color>,
}

/// What a border looks like.
#[derive(Clone, Copy, Debug, PartialEq, Eq, Structural)]
pub struct BorderParams {
    /// The size of the window and its border.
    pub size: Size,
    pub color: Color,
    pub width: i32,
    pub radius: i32,
}

/// What a shadow looks like.
#[derive(Clone, Copy, Debug, PartialEq, Eq, Structural)]
pub struct ShadowParams {
    /// The size of the window.
    pub size: Size,
    pub color: Color,
    pub range: i32,
    pub radius: i32,
    pub power: i32,
}

/// A window's border. Its commit counter tells damage trackers of changes.
#[derive(Clone, Copy, Debug)]
pub struct Border {
    /// Absent until the border is first updated.
    pub params: Option<BorderParams>,
    pub commit: usize,
}

/// A window's shadow. Its commit counter tells damage trackers of changes.
#[derive(Clone, Copy, Debug)]
pub struct Shadow {
    /// Absent until the shadow is first updated.
    pub params: Option<ShadowParams>,
    pub commit: usize,
}

impl Default for Border {
    fn default() -> (border: Self)
        ensures
            border == Border::blank(),
    {
        Border { params: None, commit: 0 }
    }
}

impl Border {
    /// A border that was never updated.
    pub open spec fn blank() -> Border {
        Border { params: None, commit: 0 }
    }

    /// The border once it looks like this.
    pub open spec fn updated(self, params: BorderParams) -> Border {
        if self.params == Some(params) {
            self
        } else {
            Border { params: Some(params), commit: crate::damage::next_commit(self.commit) }
        }
    }

    /// Brings the border up to date. Unchanged parameters preserve the commit.
    pub fn update(&mut self, params: BorderParams)
        ensures
            *final(self) == old(self).updated(params),
    {
        let same: bool = match self.params {
            Some(current) => current == params,
            None => false,
        };
        if !same {
            self.params = Some(params);
            self.commit = self.commit.wrapping_add(1);
        }
    }
}

impl Default for Shadow {
    fn default() -> (shadow: Self)
        ensures
            shadow == Shadow::blank(),
    {
        Shadow { params: None, commit: 0 }
    }
}

impl Shadow {
    /// A shadow that was never updated.
    pub open spec fn blank() -> Shadow {
        Shadow { params: None, commit: 0 }
    }

    /// The shadow once it looks like this.
    pub open spec fn updated(self, params: ShadowParams) -> Shadow {
        if self.params == Some(params) {
            self
        } else {
            Shadow { params: Some(params), commit: crate::damage::next_commit(self.commit) }
        }
    }

    /// Brings the shadow up to date. Unchanged parameters preserve the commit.
    pub fn update(&mut self, params: ShadowParams)
        ensures
            *final(self) == old(self).updated(params),
    {
        let same: bool = match self.params {
            Some(current) => current == params,
            None => false,
        };
        if !same {
            self.params = Some(params);
            self.commit = self.commit.wrapping_add(1);
        }
    }
}

/// The window manager's windows and their decorations. Windows are known by
/// numbers.
#[derive(Debug)]
pub struct Tomoe {
    pub settings: DecorationSettings,
    pub focused: Option<u64>,
    /// The mapped windows.
    pub elements: Vec<u64>,
    /// The sizes of the windows that have one.
    pub sizes: HashMap<u64, Size>,
    /// The windows by the names that the configuration knows them by.
    pub windows: HashMap<u64, u64>,
    /// What single windows have in place of the settings, by name, in the order
    /// in which it is gone through.
    pub window_properties: Vec<(u64, WindowProperties)>,
    /// The corner radius as of the last refresh.
    pub applied_corner_radius: i32,
    pub corner_damage: HashMap<u64, ExtraDamage>,
    pub window_radii: HashMap<u64, i32>,
    pub borders: HashMap<u64, Border>,
    pub shadows: HashMap<u64, Shadow>,
    /// The identity of the next element.
    pub next_element: u64,
}

/// The same, as a value.
#[verifier::ext_equal]
pub struct TomoeView {
    pub settings: DecorationSettings,
    pub focused: Option<u64>,
    pub elements: Seq<u64>,
    pub sizes: Map<u64, Size>,
    pub windows: Map<u64, u64>,
    pub window_properties: Seq<(u64, WindowProperties)>,
    pub applied_corner_radius: i32,
    pub corner_damage: Map<u64, ExtraDamage>,
    pub window_radii: Map<u64, i32>,
    pub borders: Map<u64, Border>,
    pub shadows: Map<u64, Shadow>,
    pub next_element: u64,
}

impl View for Tomoe {
    type V = TomoeView;

    open spec fn view(&self) -> TomoeView {
        TomoeView {
            settings: self.settings,
            focused: self.focused,
            elements: self.elements@,
            sizes: self.sizes@,
            windows: self.windows@,
            window_properties: self.window_properties@,
            applied_corner_radius: self.applied_corner_radius,
            corner_damage: self.corner_damage@,
            window_radii: self.window_radii@,
            borders: self.borders@,
            shadows: self.shadows@,
            next_element: self.next_element,
        }
    }
}

/// A number, or zero where it is negative.
pub open spec fn at_least_zero(n: i32) -> i32 {
    if n < 0 {
        0
    } else {
        n
    }
}

/// Whether the entry at position `i` is the first one for a window.
pub open spec fn properties_at(
    windows: Map<u64, u64>,
    properties: Seq<(u64, WindowProperties)>,
    window: u64,
    i: int,
) -> bool {
    &&& 0 <= i < properties.len()
    &&& names(windows, properties[i].0, window)
    &&& forall|j: int| 0 <= j < i ==> !names(windows, (#[trigger] properties[j]).0, window)
}

/// The position of the first entry for a window that has one.
pub open spec fn properties_position(
    windows: Map<u64, u64>,
    properties: Seq<(u64, WindowProperties)>,
    window: u64,
) -> int {
    choose|i: int| properties_at(windows, properties, window, i)
}

/// Whether a name is that of a window.
pub open spec fn names(windows: Map<u64, u64>, name: u64, window: u64) -> bool {
    windows.contains_key(name) && windows[name] == window
}

impl TomoeView {
    /// The width of borders.
    pub open spec fn width(self) -> i32 {
        at_least_zero(self.settings.border_width)
    }

    /// The corner radius of windows that have none of their own.
    pub open spec fn global_radius(self) -> i32 {
        at_least_zero(self.settings.corner_radius)
    }

    /// Whether a window is decorated: it is mapped, and has a size.
    pub open spec fn decorated(self, window: u64) -> bool {
        self.elements.contains(window) && self.sizes.contains_key(window)
    }

    /// What a window has in place of the settings.
    pub open spec fn properties(self, window: u64) -> Option<WindowProperties> {
        if exists|i: int| properties_at(self.windows, self.window_properties, window, i) {
            Some(
                self.window_properties[properties_position(
                    self.windows,
                    self.window_properties,
                    window,
                )].1,
            )
        } else {
            None
        }
    }

    /// The corner radius of a window.
    pub open spec fn radius(self, window: u64) -> i32 {
        match self.properties(window) {
            Some(WindowProperties { radius: Some(radius), .. }) => radius,
            _ => self.global_radius(),
        }
    }

    /// The colour of a window's border.
    pub open spec fn border_color(self, window: u64) -> Color {
        if self.focused == Some(window) {
            match self.properties(window) {
                Some(WindowProperties { border_focused: Some(color), .. }) => color,
                _ => self.settings.border_focused,
            }
        } else {
            match self.properties(window) {
                Some(WindowProperties { border_unfocused: Some(color), .. }) => color,
                _ => self.settings.border_unfocused,
            }
        }
    }

    /// What a window's border looks like.
    pub open spec fn border_params(self, window: u64) -> BorderParams {
        let size = self.sizes[window];
        BorderParams {
            size: Size {
                w: (size.w + 2 * self.width()) as i32,
                h: (size.h + 2 * self.width()) as i32,
            },
            color: self.border_color(window),
            width: self.width(),
            radius: (self.radius(window) + self.width()) as i32,
        }
    }

    /// What a window's shadow looks like.
    pub open spec fn shadow_params(self, window: u64) -> ShadowParams {
        ShadowParams {
            size: self.sizes[window],
            color: self.settings.shadow_color,
            range: self.settings.shadow_range,
            radius: self.radius(window),
            power: self.settings.shadow_power,
        }
    }

    /// Whether a window's border stays within 32 bits.
    pub open spec fn border_fits(self, window: u64) -> bool {
        let size = self.sizes[window];
        &&& i32::MIN <= size.w + 2 * self.width() <= i32::MAX
        &&& i32::MIN <= size.h + 2 * self.width() <= i32::MAX
        &&& i32::MIN <= self.radius(window) + self.width() <= i32::MAX
    }

    /// Whether every border stays within 32 bits, and there are identities
    /// left for new elements.
    pub open spec fn refreshable(self) -> bool {
        &&& forall|window: u64| #[trigger] self.decorated(window) ==> self.border_fits(window)
        &&& (exists|window: u64| #[trigger] self.decorated(window)) ==> 2 * self.width() <= i32::MAX
        &&& self.next_element + self.elements.len() <= u64::MAX
    }

    /// The border of a window before a refresh.
    pub open spec fn border_or_blank(self, window: u64) -> Border {
        if self.borders.contains_key(window) {
            self.borders[window]
        } else {
            Border::blank()
        }
    }

    /// The shadow of a window before a refresh.
    pub open spec fn shadow_or_blank(self, window: u64) -> Shadow {
        if self.shadows.contains_key(window) {
            self.shadows[window]
        } else {
            Shadow::blank()
        }
    }
}

/// Whether this is what a refresh makes of the decorations, if it comes to
/// these windows.
pub open spec fn refreshed_for(before: TomoeView, after: TomoeView, windows: Set<u64>) -> bool {
    &&& after.settings == before.settings
    &&& after.focused == before.focused
    &&& after.elements == before.elements
    &&& after.sizes == before.sizes
    &&& after.windows == before.windows
    &&& after.window_properties == before.window_properties
    &&& after.applied_corner_radius == before.global_radius()
    &&& radii_refreshed(before, after.window_radii, windows)
    &&& borders_refreshed(before, after.borders, windows)
    &&& shadows_refreshed(before, after.shadows, windows)
    &&& damage_refreshed(before, after.corner_damage, after.next_element, windows)
    &&& before.next_element <= after.next_element
}

/// Each of these windows has its radius, and the others are as they were.
pub open spec fn radii_refreshed(before: TomoeView, radii: Map<u64, i32>, windows: Set<u64>) -> bool {
    &&& radii.dom() =~= before.window_radii.dom().union(windows)
    &&& forall|window: u64| #[trigger]
        radii.contains_key(window) ==> radii[window] == if windows.contains(window) {
            before.radius(window)
        } else {
            before.window_radii[window]
        }
}

/// Each of these windows has its border up to date, and the others are as they
/// were.
pub open spec fn borders_refreshed(
    before: TomoeView,
    borders: Map<u64, Border>,
    windows: Set<u64>,
) -> bool {
    &&& borders.dom() =~= before.borders.dom().union(windows)
    &&& forall|window: u64| #[trigger]
        borders.contains_key(window) ==> borders[window] == if windows.contains(window) {
            before.border_or_blank(window).updated(before.border_params(window))
        } else {
            before.borders[window]
        }
}

/// Each of these windows has its shadow up to date, and the others are as they
/// were.
pub open spec fn shadows_refreshed(
    before: TomoeView,
    shadows: Map<u64, Shadow>,
    windows: Set<u64>,
) -> bool {
    &&& shadows.dom() =~= before.shadows.dom().union(windows)
    &&& forall|window: u64| #[trigger]
        shadows.contains_key(window) ==> shadows[window] == if windows.contains(window) {
            before.shadow_or_blank(window).updated(before.shadow_params(window))
        } else {
            before.shadows[window]
        }
}

/// Each of these windows has a damage element, a new one under an identity of
/// its own where there was none. Those that were there are damaged if the
/// global corner radius changed.
pub open spec fn damage_refreshed(
    before: TomoeView,
    damage: Map<u64, ExtraDamage>,
    next_element: u64,
    windows: Set<u64>,
) -> bool {
    &&& damage.dom() =~= before.corner_damage.dom().union(windows)
    &&& forall|window: u64| #[trigger]
        damage.contains_key(window) ==> if before.corner_damage.contains_key(window) {
            damage[window] == if before.global_radius() != before.applied_corner_radius {
                before.corner_damage[window].damaged()
            } else {
                before.corner_damage[window]
            }
        } else {
            &&& damage[window] == ExtraDamage::fresh(damage[window].identity())
            &&& before.next_element <= damage[window].identity() < next_element
        }
    &&& forall|a: u64, b: u64|
        #![trigger damage.contains_key(a), damage.contains_key(b)]
        damage.contains_key(a) && damage.contains_key(b) && !before.corner_damage.contains_key(a)
            && !before.corner_damage.contains_key(b) && damage[a].identity()
            == damage[b].identity() ==> a == b
}

/// The windows that are decorated.
pub open spec fn decorated_windows(tomoe: TomoeView) -> Set<u64> {
    Set::new(|window: u64| tomoe.decorated(window))
}

/// Whether this is what a refresh makes of the decorations.
pub open spec fn refreshed(before: TomoeView, after: TomoeView) -> bool {
    refreshed_for(before, after, decorated_windows(before))
}

impl Tomoe {
    /// What a window has in place of the settings: the first entry under a
    /// name of the window.
    fn properties_of(&self, window: u64) -> (properties: Option<WindowProperties>)
        ensures
            properties == self@.properties(window),
    {
        let mut i: usize = 0;
        while i < self.window_properties.len()
            invariant
                i <= self.window_properties@.len(),
                forall|j: int|
                    0 <= j < i ==> !names(
                        self.windows@,
                        (#[trigger] self.window_properties@[j]).0,
                        window,
                    ),
            decreases self.window_properties@.len() - i,
        {
            let name: u64 = self.window_properties[i].0;
            let found: bool = match self.windows.get(&name) {
                Some(named) => *named == window,
                None => false,
            };
            if found {
                proof {
                    let all = self.window_properties@;
                    assert(properties_at(self.windows@, all, window, i as int));
                    let k = properties_position(self.windows@, all, window);
                    assert(properties_at(self.windows@, all, window, k));
                    assert(k == i) by {
                        if k < i {
                            assert(!names(self.windows@, all[k].0, window));
                        }
                        if i < k {
                            assert(!names(self.windows@, all[i as int].0, window));
                        }
                    }
                    let view = self@;
                    assert(properties_at(view.windows, view.window_properties, window, i as int));
                }
                return Some(self.window_properties[i].1);
            }
            i += 1;
        }
        None
    }

    /// Damages every window's corners.
    fn damage_corners(&mut self)
        ensures
            final(self)@ == (TomoeView {
                corner_damage: old(self)@.corner_damage.map_values(
                    |damage: ExtraDamage| damage.damaged(),
                ),
                ..old(self)@
            }),
    {
        let ghost before = self.corner_damage@;
        let ghost all = vstd::std_specs::iter::IteratorSpec::remaining(
            &vstd::std_specs::hash::spec_keys_iter(&self.corner_damage),
        );
        let mut windows: Vec<u64> = Vec::new();
        for window in it: self.corner_damage.keys()
            invariant
                windows@ == it.seq().take(it.index()).unref(),
        {
            windows.push(*window);
        }
        assert(windows@ =~= all.unref());
        assert(windows@.no_duplicates());
        assert(windows@.to_set() == before.dom());
        let mut i: usize = 0;
        while i < windows.len()
            invariant
                i <= windows@.len(),
                windows@.no_duplicates(),
                windows@.to_set() == before.dom(),
                self.corner_damage@.dom() == before.dom(),
                forall|window: u64|
                    before.contains_key(window) ==> #[trigger] self.corner_damage@[window]
                        == if windows@.take(i as int).contains(window) {
                        before[window].damaged()
                    } else {
                        before[window]
                    },
                self@ == (TomoeView { corner_damage: self.corner_damage@, ..old(self)@ }),
            decreases windows@.len() - i,
        {
            let window: u64 = windows[i];
            let ghost done = windows@.take(i as int);
            proof {
                assert(windows@.to_set().contains(window));
                assert(windows@.take(i + 1) =~= done.push(window));
                crate::state::lemma_push(done, window);
                assert(!done.contains(window));
            }
            match self.corner_damage.get(&window) {
                Some(damage) => {
                    let mut damage: ExtraDamage = *damage;
                    damage.damage_all();
                    self.corner_damage.insert(window, damage);
                    assert(self.corner_damage@.dom() =~= before.dom());
                },
                None => {},
            }
            i += 1;
        }
        proof {
            assert(windows@.take(i as int) =~= windows@);
            assert forall|window: u64| before.contains_key(window) implies windows@.contains(
                window,
            ) by {
                assert(windows@.to_set().contains(window));
            }
            assert(self.corner_damage@ =~= before.map_values(
                |damage: ExtraDamage| damage.damaged(),
            ));
        }
    }

    /// Brings the decorations of one window of this size up to date.
    fn refresh_window(&mut self, window: u64, size: Size, width: i32, global_radius: i32)
        requires
            old(self)@.sizes.contains_key(window),
            old(self)@.sizes[window] == size,
            old(self)@.width() == width,
            old(self)@.global_radius() == global_radius,
            old(self)@.border_fits(window),
            2 * width <= i32::MAX,
            old(self)@.next_element < u64::MAX,
        ensures
            ({
                let before = old(self)@;
                let after = final(self)@;
                let new = !before.corner_damage.contains_key(window);
                after == (TomoeView {
                    window_radii: before.window_radii.insert(window, before.radius(window)),
                    borders: before.borders.insert(
                        window,
                        before.border_or_blank(window).updated(before.border_params(window)),
                    ),
                    shadows: before.shadows.insert(
                        window,
                        before.shadow_or_blank(window).updated(before.shadow_params(window)),
                    ),
                    corner_damage: if new {
                        before.corner_damage.insert(
                            window,
                            ExtraDamage::fresh(before.next_element),
                        )
                    } else {
                        before.corner_damage
                    },
                    next_element: if new {
                        (before.next_element + 1) as u64
                    } else {
                        before.next_element
                    },
                    ..before
                })
            }),
    {
        let ghost before = self@;
        let props: Option<WindowProperties> = self.properties_of(window);
        let radius: i32 = match props {
            Some(p) => match p.radius {
                Some(radius) => radius,
                None => global_radius,
            },
            None => global_radius,
        };
        self.window_radii.insert(window, radius);
        let focused: bool = match self.focused {
            Some(focused) => focused == window,
            None => false,
        };
        let color: Color = if focused {
            match props {
                Some(p) => match p.border_focused {
                    Some(color) => color,
                    None => self.settings.border_focused,
                },
                None => self.settings.border_focused,
            }
        } else {
            match props {
                Some(p) => match p.border_unfocused {
                    Some(color) => color,
                    None => self.settings.border_unfocused,
                },
                None => self.settings.border_unfocused,
            }
        };
        if !self.corner_damage.contains_key(&window) {
            self.corner_damage.insert(window, ExtraDamage::new(self.next_element));
            self.next_element = self.next_element + 1;
        }
        let mut border: Border = match self.borders.get(&window) {
            Some(border) => *border,
            None => Border::default(),
        };
        border.update(
            BorderParams {
                size: Size { w: size.w + 2 * width, h: size.h + 2 * width },
                color,
                width,
                radius: radius + width,
            },
        );
        self.borders.insert(window, border);
        let mut shadow: Shadow = match self.shadows.get(&window) {
            Some(shadow) => *shadow,
            None => Shadow::default(),
        };
        shadow.update(
            ShadowParams {
                size,
                color: self.settings.shadow_color,
                range: self.settings.shadow_range,
                radius,
                power: self.settings.shadow_power,
            },
        );
        self.shadows.insert(window, shadow);
    }

    /// Brings the decorations of every mapped window up to date with its size,
    /// the focus and the settings. What has not changed keeps its commit.
    pub fn refresh_borders(&mut self)
        requires
            old(self)@.refreshable(),
        ensures
            refreshed(old(self)@, final(self)@),
    {
        let ghost before = self@;
        let width: i32 = if self.settings.border_width < 0 {
            0
        } else {
            self.settings.border_width
        };
        let global_radius: i32 = if self.settings.corner_radius < 0 {
            0
        } else {
            self.settings.corner_radius
        };
        // A window with a radius of its own is damaged when that is set.
        if global_radius != self.applied_corner_radius {
            self.applied_corner_radius = global_radius;
            self.damage_corners();
        }
        let mut i: usize = 0;
        while i < self.elements.len()
            invariant
                i <= before.elements.len(),
                before.refreshable(),
                width == before.width(),
                global_radius == before.global_radius(),
                self@.next_element <= before.next_element + i,
                refreshed_for(before, self@, decorated_up_to(before, i as int)),
            decreases before.elements.len() - i,
        {
            let window: u64 = self.elements[i];
            let size: Option<Size> = match self.sizes.get(&window) {
                Some(size) => Some(*size),
                None => None,
            };
            let ghost step = self@;
            match size {
                Some(size) => {
                    assert(before.elements.contains(window));
                    assert(before.decorated(window));
                    assert(before.border_fits(window));
                    proof {
                        lemma_same_inputs(before, step, window);
                    }
                    self.refresh_window(window, size, width, global_radius);
                    proof {
                        lemma_refresh_step(before, step, self@, i as int);
                    }
                },
                None => {
                    assert(decorated_up_to(before, i + 1) =~= decorated_up_to(before, i as int)) by {
                        lemma_decorated_up_to(before, i as int);
                    }
                },
            }
            i += 1;
        }
        assert(decorated_up_to(before, i as int) =~= decorated_windows(before)) by {
            assert(before.elements.take(i as int) =~= before.elements);
        }
    }
}

/// The decorated windows among the first `n` mapped ones.
spec fn decorated_up_to(tomoe: TomoeView, n: int) -> Set<u64> {
    Set::new(
        |window: u64| tomoe.elements.take(n).contains(window) && tomoe.sizes.contains_key(window),
    )
}

proof fn lemma_decorated_up_to(tomoe: TomoeView, n: int)
    requires
        0 <= n < tomoe.elements.len(),
    ensures
        forall|window: u64| #[trigger]
            decorated_up_to(tomoe, n + 1).contains(window) <==> decorated_up_to(tomoe, n).contains(
                window,
            ) || (window == tomoe.elements[n] && tomoe.sizes.contains_key(window)),
{
    assert(tomoe.elements.take(n + 1) =~= tomoe.elements.take(n).push(tomoe.elements[n]));
    crate::state::lemma_push(tomoe.elements.take(n), tomoe.elements[n]);
}

/// What a window is to look like does not depend on what has been refreshed.
proof fn lemma_same_inputs(before: TomoeView, after: TomoeView, window: u64)
    requires
        after.settings == before.settings,
        after.focused == before.focused,
        after.sizes == before.sizes,
        after.windows == before.windows,
        after.window_properties == before.window_properties,
    ensures
        after.width() == before.width(),
        after.global_radius() == before.global_radius(),
        after.radius(window) == before.radius(window),
        after.border_params(window) == before.border_params(window),
        after.shadow_params(window) == before.shadow_params(window),
        after.border_fits(window) == before.border_fits(window),
{
}

/// One more window refreshed.
proof fn lemma_refresh_step(before: TomoeView, step: TomoeView, after: TomoeView, n: int)
    requires
        0 <= n < before.elements.len(),
        before.sizes.contains_key(before.elements[n]),
        refreshed_for(before, step, decorated_up_to(before, n)),
        step.next_element < u64::MAX,
        ({
            let window = before.elements[n];
            let new = !step.corner_damage.contains_key(window);
            after == (TomoeView {
                window_radii: step.window_radii.insert(window, step.radius(window)),
                borders: step.borders.insert(
                    window,
                    step.border_or_blank(window).updated(step.border_params(window)),
                ),
                shadows: step.shadows.insert(
                    window,
                    step.shadow_or_blank(window).updated(step.shadow_params(window)),
                ),
                corner_damage: if new {
                    step.corner_damage.insert(window, ExtraDamage::fresh(step.next_element))
                } else {
                    step.corner_damage
                },
                next_element: if new {
                    (step.next_element + 1) as u64
                } else {
                    step.next_element
                },
                ..step
            })
        }),
    ensures
        refreshed_for(before, after, decorated_up_to(before, n + 1)),
{
    let window = before.elements[n];
    let done = decorated_up_to(before, n);
    let next = decorated_up_to(before, n + 1);
    lemma_decorated_up_to(before, n);
    lemma_same_inputs(before, step, window);
    assert(next =~= done.insert(window));
    assert(radii_refreshed(before, after.window_radii, next));
    assert(borders_refreshed(before, after.borders, next)) by {
        assert(step.borders.contains_key(window) <==> before.borders.contains_key(window)
            || done.contains(window));
    }
    assert(shadows_refreshed(before, after.shadows, next)) by {
        assert(step.shadows.contains_key(window) <==> before.shadows.contains_key(window)
            || done.contains(window));
    }
    crate::damage::lemma_fresh(step.next_element);
    assert(damage_refreshed(before, after.corner_damage, after.next_element, next));
}

/// A refresh with nothing changed since the last one changes nothing: every
/// border, shadow and damage element keeps its commit.
pub proof fn unchanged_windows_keep_their_commits(
    first: TomoeView,
    second: TomoeView,
    third: TomoeView,
)
    requires
        refreshed(first, second),
        refreshed(second, third),
    ensures
        third.borders == second.borders,
        third.shadows == second.shadows,
        third.window_radii == second.window_radii,
        third.corner_damage == second.corner_damage,
        third.applied_corner_radius == second.applied_corner_radius,
{
    let windows = decorated_windows(first);
    assert(decorated_windows(second) =~= windows);
    assert forall|window: u64| windows.contains(window) implies {
        &&& second.radius(window) == first.radius(window)
        &&& second.border_params(window) == first.border_params(window)
        &&& second.shadow_params(window) == first.shadow_params(window)
        &&& second.global_radius() == first.global_radius()
    } by {
        lemma_same_inputs(first, second, window);
    }
    assert forall|window: u64| second.borders.contains_key(window) implies third.borders[window]
        == second.borders[window] by {
        assert(third.borders.contains_key(window));
    }
    assert forall|window: u64| second.shadows.contains_key(window) implies third.shadows[window]
        == second.shadows[window] by {
        assert(third.shadows.contains_key(window));
    }
    assert forall|window: u64|
        second.window_radii.contains_key(window) implies third.window_radii[window]
        == second.window_radii[window] by {
        assert(third.window_radii.contains_key(window));
    }
    assert forall|window: u64|
        second.corner_damage.contains_key(window) implies third.corner_damage[window]
        == second.corner_damage[window] by {
        assert(third.corner_damage.contains_key(window));
    }
    assert(third.borders =~= second.borders);
    assert(third.shadows =~= second.shadows);
    assert(third.window_radii =~= second.window_radii);
    assert(third.corner_damage =~= second.corner_damage);
}

/// After a refresh every mapped window looks as its size, the focus and the
/// settings ask.
pub proof fn refreshed_windows_look_right(first: TomoeView, second: TomoeView, window: u64)
    requires
        refreshed(first, second),
        first.decorated(window),
    ensures
        second.window_radii.contains_key(window),
        second.window_radii[window] == first.radius(window),
        second.borders.contains_key(window),
        second.borders[window].params == Some(first.border_params(window)),
        second.shadows.contains_key(window),
        second.shadows[window].params == Some(first.shadow_params(window)),
        second.corner_damage.contains_key(window),
{
    assert(decorated_windows(first).contains(window));
    assert(second.window_radii.contains_key(window));
    assert(second.borders.contains_key(window));
    assert(second.shadows.contains_key(window));
}

/// A change of the global corner radius repaints every window that has a
/// damage element, and a refresh without one repaints none on its account.
pub proof fn radius_changes_repaint_windows(first: TomoeView, second: TomoeView, window: u64)
    requires
        refreshed(first, second),
        first.corner_damage.contains_key(window),
    ensures
        second.corner_damage.contains_key(window),
        second.corner_damage[window].identity() == first.corner_damage[window].identity(),
        crate::damage::repaints(
            first.corner_damage[window].commits(),
            second.corner_damage[window],
        ) <==> first.global_radius() != first.applied_corner_radius,
{
    assert(second.corner_damage.contains_key(window));
    let damage = first.corner_damage[window];
    crate::damage::lemma_damaged(damage);
}

impl Tomoe {
    /// Tests whether every border stays within 32 bits, and there are
    /// identities left for new elements.
    pub fn is_refreshable(&self) -> (fine: bool)
        ensures
            fine == self@.refreshable(),
    {
        let width: i64 = if self.settings.border_width < 0 {
            0
        } else {
            self.settings.border_width as i64
        };
        let global_radius: i32 = if self.settings.corner_radius < 0 {
            0
        } else {
            self.settings.corner_radius
        };
        if self.elements.len() as u64 > 0xffff_ffff_ffff_ffff - self.next_element {
            return false;
        }
        let mut i: usize = 0;
        while i < self.elements.len()
            invariant
                i <= self.elements@.len(),
                width == self@.width(),
                global_radius == self@.global_radius(),
                self.next_element + self.elements@.len() <= u64::MAX,
                forall|j: int|
                    0 <= j < i && self@.sizes.contains_key(#[trigger] self.elements@[j])
                        ==> self@.border_fits(self.elements@[j]) && 2 * width <= i32::MAX,
            decreases self.elements@.len() - i,
        {
            let window: u64 = self.elements[i];
            match self.sizes.get(&window) {
                Some(size) => {
                    assert(self@.elements.contains(window));
                    assert(self@.decorated(window));
                    let radius: i32 = match self.properties_of(window) {
                        Some(p) => match p.radius {
                            Some(radius) => radius,
                            None => global_radius,
                        },
                        None => global_radius,
                    };
                    assert(radius == self@.radius(window));
                    let w: i64 = size.w as i64 + 2 * width;
                    let h: i64 = size.h as i64 + 2 * width;
                    let r: i64 = radius as i64 + width;
                    if 2 * width > 0x7fff_ffff || w > 0x7fff_ffff || h > 0x7fff_ffff || r
                        > 0x7fff_ffff {
                        return false;
                    }
                },
                None => {},
            }
            i += 1;
        }
        proof {
            assert forall|window: u64| #[trigger] self@.decorated(window) implies self@.border_fits(
                window,
            ) && 2 * self@.width() <= i32::MAX by {
                let j = choose|j: int| 0 <= j < self.elements@.len() && self.elements@[j] == window;
                assert(self@.sizes.contains_key(self.elements@[j]));
            }
        }
        true
    }
}

/// Whether the entry at position `i` is the first one under a name of a window.
pub open spec fn first_entry(tomoe: TomoeView, window: u64, i: int) -> bool {
    &&& 0 <= i < tomoe.window_properties.len()
    &&& tomoe.windows.contains_pair(tomoe.window_properties[i].0, window)
    &&& forall|j: int|
        0 <= j < i ==> !tomoe.windows.contains_pair(
            (#[trigger] tomoe.window_properties[j]).0,
            window,
        )
}

proof fn lemma_first_entry(tomoe: TomoeView, window: u64, i: int)
    requires
        first_entry(tomoe, window, i),
    ensures
        tomoe.properties(window) == Some(tomoe.window_properties[i].1),
{
    let all = tomoe.window_properties;
    assert forall|j: int| 0 <= j < i implies !names(
        tomoe.windows,
        (#[trigger] all[j]).0,
        window,
    ) by {
        assert(!tomoe.windows.contains_pair(all[j].0, window));
    }
    assert(properties_at(tomoe.windows, all, window, i));
    let k = properties_position(tomoe.windows, all, window);
    assert(properties_at(tomoe.windows, all, window, k));
    if k < i {
        assert(!names(tomoe.windows, all[k].0, window));
    }
    if i < k {
        assert(!names(tomoe.windows, all[i].0, window));
    }
}

proof fn lemma_no_entry(tomoe: TomoeView, window: u64)
    requires
        forall|j: int|
            0 <= j < tomoe.window_properties.len() ==> !tomoe.windows.contains_pair(
                (#[trigger] tomoe.window_properties[j]).0,
                window,
            ),
    ensures
        tomoe.properties(window) is None,
{
    assert forall|i: int| !properties_at(
        tomoe.windows,
        tomoe.window_properties,
        window,
        i,
    ) by {
        if 0 <= i < tomoe.window_properties.len() {
            assert(!tomoe.windows.contains_pair(tomoe.window_properties[i].0, window));
        }
    }
}

/// A window's border and shadow after a refresh. The shadow has the window's
/// size and radius, and the settings' colour, range and power. The border lies
/// around the window: it is wider and higher by its width on either side, and
/// rounder by its width.
pub proof fn decorations_follow_the_window(tomoe: &mut Tomoe, window: u64, fine: bool)
    requires
        call_ensures(Tomoe::refresh_borders, (tomoe,), ()),
        call_ensures(Tomoe::is_refreshable, (&*old(tomoe),), fine),
        fine,
        old(tomoe).elements@.contains(window),
        old(tomoe).sizes@.contains_key(window),
    ensures
        ({
            let was = *old(tomoe);
            let now = *final(tomoe);
            let size = was.sizes@[window];
            &&& now.window_radii@.contains_key(window)
            &&& now.shadows@.contains_key(window)
            &&& now.borders@.contains_key(window)
            &&& now.corner_damage@.contains_key(window)
            &&& now.shadows@[window].params matches Some(shadow)
            &&& now.borders@[window].params matches Some(border)
            &&& shadow.radius == now.window_radii@[window]
            &&& shadow.size.w == size.w && shadow.size.h == size.h
            &&& shadow.color == was.settings.shadow_color
            &&& shadow.range == was.settings.shadow_range
            &&& shadow.power == was.settings.shadow_power
            &&& border.radius == now.window_radii@[window] + border.width
            &&& border.size.w == size.w + 2 * border.width
            &&& border.size.h == size.h + 2 * border.width
            &&& was.settings.border_width >= 0 ==> border.width == was.settings.border_width
            &&& was.settings.border_width < 0 ==> border.width == 0
        }),
{
    let first = old(tomoe)@;
    assert(first.decorated(window));
    refreshed_windows_look_right(first, final(tomoe)@, window);
    assert(first.border_fits(window));
}

/// What a window has of its own goes before the settings: the radius, and the
/// border's colour for when it has the focus and for when it has not. It is
/// found in the first entry under a name of the window.
pub proof fn a_windows_own_properties_win(tomoe: &mut Tomoe, window: u64, i: int)
    requires
        call_ensures(Tomoe::refresh_borders, (tomoe,), ()),
        old(tomoe).elements@.contains(window),
        old(tomoe).sizes@.contains_key(window),
        first_entry(old(tomoe)@, window, i),
    ensures
        ({
            let own = old(tomoe).window_properties@[i].1;
            let now = *final(tomoe);
            let focused = old(tomoe).focused == Some(window);
            &&& own.radius matches Some(radius) ==> now.window_radii@[window] == radius
            &&& own.radius is None ==> now.window_radii@[window]
                == now.applied_corner_radius
            &&& now.borders@[window].params matches Some(border)
            &&& focused ==> (own.border_focused matches Some(color) ==> border.color == color)
            &&& focused && own.border_focused is None ==> border.color
                == old(tomoe).settings.border_focused
            &&& !focused ==> (own.border_unfocused matches Some(color) ==> border.color == color)
            &&& !focused && own.border_unfocused is None ==> border.color
                == old(tomoe).settings.border_unfocused
        }),
{
    let first = old(tomoe)@;
    assert(first.decorated(window));
    refreshed_windows_look_right(first, final(tomoe)@, window);
    lemma_first_entry(first, window, i);
}

/// A window without an entry under any of its names goes by the settings.
pub proof fn other_windows_go_by_the_settings(tomoe: &mut Tomoe, window: u64)
    requires
        call_ensures(Tomoe::refresh_borders, (tomoe,), ()),
        old(tomoe).elements@.contains(window),
        old(tomoe).sizes@.contains_key(window),
        forall|j: int|
            0 <= j < old(tomoe).window_properties@.len() ==> !old(tomoe).windows@.contains_pair(
                (#[trigger] old(tomoe).window_properties@[j]).0,
                window,
            ),
    ensures
        ({
            let now = *final(tomoe);
            &&& now.window_radii@[window] == now.applied_corner_radius
            &&& now.borders@[window].params matches Some(border)
            &&& old(tomoe).focused == Some(window) ==> border.color
                == old(tomoe).settings.border_focused
            &&& old(tomoe).focused != Some(window) ==> border.color
                == old(tomoe).settings.border_unfocused
        }),
{
    let first = old(tomoe)@;
    assert(first.decorated(window));
    refreshed_windows_look_right(first, final(tomoe)@, window);
    lemma_no_entry(first, window);
}

/// A refresh takes down the settings' corner radius, which is never negative,
/// and leaves alone everything that decorations go by.
pub proof fn a_refresh_touches_decorations_only(tomoe: &mut Tomoe)
    requires
        call_ensures(Tomoe::refresh_borders, (tomoe,), ()),
    ensures
        old(tomoe).settings.corner_radius >= 0 ==> final(tomoe).applied_corner_radius
            == old(tomoe).settings.corner_radius,
        old(tomoe).settings.corner_radius < 0 ==> final(tomoe).applied_corner_radius == 0,
        final(tomoe).settings == old(tomoe).settings,
        final(tomoe).focused == old(tomoe).focused,
        final(tomoe).elements@ == old(tomoe).elements@,
        final(tomoe).sizes@ == old(tomoe).sizes@,
        final(tomoe).windows@ == old(tomoe).windows@,
        final(tomoe).window_properties@ == old(tomoe).window_properties@,
{
    assert(refreshed(old(tomoe)@, final(tomoe)@));
}

/// A window that is not mapped, or has no size, is passed over: its radius,
/// border and shadow are as they were, and none are made up for it.
pub proof fn other_windows_keep_their_decorations(tomoe: &mut Tomoe, window: u64)
    requires
        call_ensures(Tomoe::refresh_borders, (tomoe,), ()),
        !(old(tomoe).elements@.contains(window) && old(tomoe).sizes@.contains_key(window)),
    ensures
        ({
            let was = *old(tomoe);
            let now = *final(tomoe);
            &&& now.window_radii@.contains_key(window) <==> was.window_radii@.contains_key(window)
            &&& now.borders@.contains_key(window) <==> was.borders@.contains_key(window)
            &&& now.shadows@.contains_key(window) <==> was.shadows@.contains_key(window)
            &&& now.corner_damage@.contains_key(window) <==> was.corner_damage@.contains_key(window)
            &&& now.window_radii@.contains_key(window) ==> now.window_radii@[window]
                == was.window_radii@[window]
            &&& now.borders@.contains_key(window) ==> now.borders@[window] == was.borders@[window]
            &&& now.shadows@.contains_key(window) ==> now.shadows@[window] == was.shadows@[window]
        }),
{
    let first = old(tomoe)@;
    let second = final(tomoe)@;
    assert(!first.decorated(window));
    assert(!decorated_windows(first).contains(window));
    assert(second.window_radii.dom() =~= first.window_radii.dom().union(decorated_windows(first)));
    assert(second.borders.dom() =~= first.borders.dom().union(decorated_windows(first)));
    assert(second.shadows.dom() =~= first.shadows.dom().union(decorated_windows(first)));
    assert(second.corner_damage.dom() =~= first.corner_damage.dom().union(
        decorated_windows(first),
    ));
    assert(second.window_radii.contains_key(window) <==> second.window_radii.dom().contains(window));
    assert(second.borders.contains_key(window) <==> second.borders.dom().contains(window));
    assert(second.shadows.contains_key(window) <==> second.shadows.dom().contains(window));
    assert(second.corner_damage.contains_key(window) <==> second.corner_damage.dom().contains(
        window,
    ));
}

/// A border's commit moves on exactly if the border comes to look different, by
/// one, and a first look counts. So does a shadow's.
pub proof fn commits_tell_of_changes(tomoe: &mut Tomoe, window: u64)
    requires
        call_ensures(Tomoe::refresh_borders, (tomoe,), ()),
        old(tomoe).elements@.contains(window),
        old(tomoe).sizes@.contains_key(window),
    ensures
        ({
            let was = *old(tomoe);
            let now = *final(tomoe);
            &&& was.borders@.contains_key(window) ==> {
                let a = was.borders@[window];
                let b = now.borders@[window];
                &&& b.params == a.params ==> b.commit == a.commit
                &&& b.params != a.params ==> b.commit == if a.commit == usize::MAX {
                    0
                } else {
                    a.commit + 1
                }
            }
            &&& !was.borders@.contains_key(window) ==> now.borders@[window].commit == 1
            &&& was.shadows@.contains_key(window) ==> {
                let a = was.shadows@[window];
                let b = now.shadows@[window];
                &&& b.params == a.params ==> b.commit == a.commit
                &&& b.params != a.params ==> b.commit == if a.commit == usize::MAX {
                    0
                } else {
                    a.commit + 1
                }
            }
            &&& !was.shadows@.contains_key(window) ==> now.shadows@[window].commit == 1
        }),
{
    let first = old(tomoe)@;
    assert(first.decorated(window));
    refreshed_windows_look_right(first, final(tomoe)@, window);
}

/// What a refresh makes of one window's damage element.
proof fn lemma_damage_refreshed(first: TomoeView, second: TomoeView, window: u64)
    requires
        refreshed(first, second),
    ensures
        second.corner_damage.contains_key(window) <==> first.corner_damage.contains_key(window)
            || first.decorated(window),
        first.corner_damage.contains_key(window) ==> second.corner_damage[window] == if (
        first.global_radius() != first.applied_corner_radius) {
            first.corner_damage[window].damaged()
        } else {
            first.corner_damage[window]
        },
{
    let windows = decorated_windows(first);
    assert(damage_refreshed(first, second.corner_damage, second.next_element, windows));
    assert(second.corner_damage.dom() == first.corner_damage.dom().union(windows));
    assert(second.corner_damage.dom().contains(window) <==> first.corner_damage.dom().contains(
        window,
    ) || windows.contains(window));
}

/// A window's damage element moves on by one where the corner radius in force
/// changes, whether or not the window is mapped, and is the same else.
pub proof fn a_new_radius_damages_every_window(tomoe: &mut Tomoe, window: u64)
    requires
        call_ensures(Tomoe::refresh_borders, (tomoe,), ()),
        old(tomoe).corner_damage@.contains_key(window),
    ensures
        ({
            let a = old(tomoe).corner_damage@[window];
            let b = final(tomoe).corner_damage@[window];
            let changed = final(tomoe).applied_corner_radius != old(tomoe).applied_corner_radius;
            &&& final(tomoe).corner_damage@.contains_key(window)
            &&& b.identity() == a.identity()
            &&& b.area() == a.area()
            &&& !changed ==> b.commits() == a.commits()
            &&& changed ==> b.commits() == if a.commits() == usize::MAX {
                0
            } else {
                a.commits() + 1
            }
        }),
{
    let first = old(tomoe)@;
    lemma_damage_refreshed(first, final(tomoe)@, window);
    crate::damage::lemma_damaged(first.corner_damage[window]);
}

/// A window that is decorated for the first time gets a damage element that was
/// never damaged, under an identity past those handed out before, and of its
/// own. No other window gets one.
pub proof fn new_windows_get_elements_of_their_own(tomoe: &mut Tomoe, window: u64, other: u64)
    requires
        call_ensures(Tomoe::refresh_borders, (tomoe,), ()),
        !old(tomoe).corner_damage@.contains_key(window),
        !old(tomoe).corner_damage@.contains_key(other),
    ensures
        final(tomoe).corner_damage@.contains_key(window) <==> old(tomoe).elements@.contains(window)
            && old(tomoe).sizes@.contains_key(window),
        final(tomoe).corner_damage@.contains_key(window) ==> {
            let fresh = final(tomoe).corner_damage@[window];
            &&& fresh.commits() == 0
            &&& old(tomoe).next_element <= fresh.identity() < final(tomoe).next_element
            &&& final(tomoe).corner_damage@.contains_key(other) && other != window
                ==> final(tomoe).corner_damage@[other].identity() != fresh.identity()
        },
{
    let first = old(tomoe)@;
    let second = final(tomoe)@;
    lemma_damage_refreshed(first, second, window);
    lemma_damage_refreshed(first, second, other);
    assert(damage_refreshed(
        first,
        second.corner_damage,
        second.next_element,
        decorated_windows(first),
    ));
    crate::damage::lemma_fresh(second.corner_damage[window].identity());
}

/// Decorations can be refreshed as long as the numbers are sane: every border's
/// size and radius within 32 bits, and identities left for every window.
pub proof fn sane_windows_can_be_refreshed(tomoe: Tomoe, fine: bool)
    requires
        call_ensures(Tomoe::is_refreshable, (&tomoe,), fine),
        tomoe.settings.border_width <= 0x1000_0000,
        tomoe.settings.corner_radius <= 0x1000_0000,
        forall|window: u64| #[trigger]
            tomoe.sizes@.contains_key(window) ==> 0 <= tomoe.sizes@[window].w <= 0x1000_0000 && 0
                <= tomoe.sizes@[window].h <= 0x1000_0000,
        forall|i: int|
            0 <= i < tomoe.window_properties@.len() ==> {
                (#[trigger] tomoe.window_properties@[i]).1.radius matches Some(radius) ==> 0
                    <= radius <= 0x1000_0000
            },
        tomoe.next_element + tomoe.elements@.len() <= u64::MAX,
    ensures
        fine,
{
    let view = tomoe@;
    assert forall|window: u64| #[trigger] view.decorated(window) implies view.border_fits(window) by {
        assert(tomoe.sizes@.contains_key(window));
        if exists|i: int| properties_at(view.windows, view.window_properties, window, i) {
            let k = properties_position(view.windows, view.window_properties, window);
            assert(properties_at(view.windows, view.window_properties, window, k));
            assert(view.properties(window) == Some(view.window_properties[k].1));
        }
    }
}

} // verus!
