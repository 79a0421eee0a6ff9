//! The outputs and where they lie, in physical pixels.

use vstd::prelude::*;

use crate::geometry::{Point, Rectangle, Transform};
use crate::mode::Mode;

verus! {

/// An output.
#[derive(Debug)]
pub struct Output {
    /// Tells outputs apart.
    pub id: u64,
    /// The name of its connector.
    pub name: String,
    pub mode: Option<Mode>,
    pub transform: Transform,
}

/// An output and its position.
#[derive(Debug)]
pub struct MappedOutput {
    pub output: Output,
    pub loc: Point,
}

/// The outputs in the order in which they were connected.
#[derive(Debug)]
pub struct PhysicalSpace {
    pub outputs: Vec<MappedOutput>,
}

impl MappedOutput {
    /// The area that an output covers; none while it has no mode.
    pub open spec fn area(self) -> Option<Rectangle> {
        match self.output.mode {
            Some(mode) => Some(
                Rectangle { loc: self.loc, size: self.output.transform.transformed(mode.size) },
            ),
            None => None,
        }
    }

    /// The output's width; nothing while it has no mode.
    pub open spec fn width(self) -> int {
        match self.area() {
            Some(area) => area.size.w as int,
            None => 0,
        }
    }

    /// The area that the output covers; none while it has no mode.
    pub fn geometry(&self) -> (area: Option<Rectangle>)
        ensures
            area == self.area(),
    {
        match self.output.mode {
            Some(mode) => Some(
                Rectangle { loc: self.loc, size: self.output.transform.transform_size(mode.size) },
            ),
            None => None,
        }
    }
}

/// The width of everything before position `i`.
pub open spec fn width_before(outputs: Seq<MappedOutput>, i: int) -> int
    decreases i,
{
    if i <= 0 {
        0
    } else {
        width_before(outputs, i - 1) + outputs[i - 1].width()
    }
}

/// Whether the outputs side by side stay within 32 bits.
pub open spec fn packable(outputs: Seq<MappedOutput>) -> bool {
    forall|i: int|
        0 <= i <= outputs.len() ==> i32::MIN <= #[trigger] width_before(outputs, i) <= i32::MAX
}

/// The outputs packed from left to right, in order. One without a mode stays
/// where it is.
pub open spec fn packed(outputs: Seq<MappedOutput>) -> Seq<MappedOutput> {
    Seq::new(
        outputs.len(),
        |i: int|
            if outputs[i].area() is Some {
                MappedOutput {
                    loc: Point { x: width_before(outputs, i) as i32, y: 0 },
                    ..outputs[i]
                }
            } else {
                outputs[i]
            },
    )
}

/// Where an output ends on the right.
pub open spec fn right_of(output: MappedOutput) -> Option<int> {
    match output.area() {
        Some(area) => Some(area.loc.x + area.size.w),
        None => None,
    }
}

/// Whether every output ends within 32 bits.
pub open spec fn edges_fit(outputs: Seq<MappedOutput>) -> bool {
    forall|i: int|
        0 <= i < outputs.len() ==> (right_of(#[trigger] outputs[i]) matches Some(edge)
            ==> i32::MIN <= edge <= i32::MAX)
}

/// Where the outputs end on the right.
pub open spec fn rightmost(outputs: Seq<MappedOutput>) -> Option<int>
    decreases outputs.len(),
{
    if outputs.len() == 0 {
        None
    } else {
        match (rightmost(outputs.drop_last()), right_of(outputs.last())) {
            (Some(a), Some(b)) => Some(
                if a < b {
                    b
                } else {
                    a
                },
            ),
            (Some(a), None) => Some(a),
            (None, edge) => edge,
        }
    }
}

/// Where the next output goes: past everything that is there.
pub open spec fn next_x(outputs: Seq<MappedOutput>) -> int {
    match rightmost(outputs) {
        Some(edge) => edge,
        None => 0,
    }
}

/// The outputs without the one of this identity.
pub open spec fn without(outputs: Seq<MappedOutput>, id: u64) -> Seq<MappedOutput> {
    outputs.filter(|mapped: MappedOutput| mapped.output.id != id)
}

/// Whether an output of this identity is there.
pub open spec fn is_mapped(outputs: Seq<MappedOutput>, id: u64) -> bool {
    exists|i: int| 0 <= i < outputs.len() && (#[trigger] outputs[i]).output.id == id
}

/// Whether `i` is the first position of an identity.
pub open spec fn first_at(outputs: Seq<MappedOutput>, id: u64, i: int) -> bool {
    &&& 0 <= i < outputs.len()
    &&& outputs[i].output.id == id
    &&& forall|j: int| 0 <= j < i ==> (#[trigger] outputs[j]).output.id != id
}

/// The first position of an identity that is there.
pub open spec fn position_of(outputs: Seq<MappedOutput>, id: u64) -> int {
    choose|i: int| first_at(outputs, id, i)
}

/// The outputs once one has been put at a position: in its old place in the
/// order, or last if it is new.
pub open spec fn with_output(outputs: Seq<MappedOutput>, mapped: MappedOutput) -> Seq<MappedOutput> {
    if is_mapped(outputs, mapped.output.id) {
        outputs.update(position_of(outputs, mapped.output.id), mapped)
    } else {
        outputs.push(mapped)
    }
}

/// The mode of the output of this identity; none where it is not mapped.
pub open spec fn mode_of(outputs: Seq<MappedOutput>, id: u64) -> Option<Mode> {
    if is_mapped(outputs, id) {
        outputs[position_of(outputs, id)].output.mode
    } else {
        None
    }
}

/// The area of the output of this identity; none where it is not mapped or
/// has no mode.
pub open spec fn area_of(outputs: Seq<MappedOutput>, id: u64) -> Option<Rectangle> {
    if is_mapped(outputs, id) {
        outputs[position_of(outputs, id)].area()
    } else {
        None
    }
}

/// The outputs once the one of this identity has another mode.
pub open spec fn with_mode(outputs: Seq<MappedOutput>, id: u64, mode: Mode) -> Seq<MappedOutput> {
    if is_mapped(outputs, id) {
        let i = position_of(outputs, id);
        outputs.update(
            i,
            MappedOutput {
                output: Output { mode: Some(mode), ..outputs[i].output },
                ..outputs[i]
            },
        )
    } else {
        outputs
    }
}

impl PhysicalSpace {
    /// No outputs.
    pub fn new() -> (space: PhysicalSpace)
        ensures
            space.outputs@ == Seq::<MappedOutput>::empty(),
    {
        PhysicalSpace { outputs: Vec::new() }
    }

    fn find(&self, id: u64) -> (found: Option<usize>)
        ensures
            match found {
                Some(i) => first_at(self.outputs@, id, i as int) && is_mapped(self.outputs@, id)
                    && position_of(self.outputs@, id) == i,
                None => !is_mapped(self.outputs@, id),
            },
    {
        let mut i: usize = 0;
        while i < self.outputs.len()
            invariant
                i <= self.outputs@.len(),
                forall|j: int| 0 <= j < i ==> (#[trigger] self.outputs@[j]).output.id != id,
            decreases self.outputs@.len() - i,
        {
            if self.outputs[i].output.id == id {
                proof {
                    assert(first_at(self.outputs@, id, i as int));
                    let k = position_of(self.outputs@, id);
                    assert(first_at(self.outputs@, id, k));
                }
                return Some(i);
            }
            i += 1;
        }
        None
    }

    /// The mode of an output.
    pub fn output_mode(&self, id: u64) -> (mode: Option<Mode>)
        ensures
            mode == mode_of(self.outputs@, id),
    {
        match self.find(id) {
            Some(i) => self.outputs[i].output.mode,
            None => None,
        }
    }

    /// The area of an output.
    pub fn output_geometry(&self, id: u64) -> (area: Option<Rectangle>)
        ensures
            area == area_of(self.outputs@, id),
    {
        match self.find(id) {
            Some(i) => self.outputs[i].geometry(),
            None => None,
        }
    }

    /// Puts an output at a position.
    pub fn map_output(&mut self, output: Output, loc: Point)
        ensures
            final(self).outputs@ == with_output(
                old(self).outputs@,
                (MappedOutput { output, loc }),
            ),
    {
        match self.find(output.id) {
            Some(i) => {
                self.outputs.set(i, MappedOutput { output, loc });
            },
            None => {
                self.outputs.push(MappedOutput { output, loc });
            },
        }
    }

    /// Gives an output another mode.
    pub fn set_mode(&mut self, id: u64, mode: Mode)
        ensures
            final(self).outputs@ == with_mode(old(self).outputs@, id, mode),
    {
        match self.find(id) {
            Some(i) => {
                let mut mapped = self.outputs.remove(i);
                mapped.output.mode = Some(mode);
                self.outputs.insert(i, mapped);
                assert(self.outputs@ =~= with_mode(old(self).outputs@, id, mode));
            },
            None => {},
        }
    }

    /// Takes an output away.
    pub fn unmap_output(&mut self, id: u64)
        ensures
            final(self).outputs@ == without(old(self).outputs@, id),
    {
        let ghost all = self.outputs@;
        let ghost keep = |mapped: MappedOutput| mapped.output.id != id;
        let mut kept: Vec<MappedOutput> = Vec::new();
        let mut rest: Vec<MappedOutput> = Vec::new();
        std::mem::swap(&mut rest, &mut self.outputs);
        let ghost mut i: int = 0;
        assert(all.take(0).filter(keep) =~= Seq::<MappedOutput>::empty()) by {
            reveal(Seq::filter);
        }
        while rest.len() > 0
            invariant
                0 <= i,
                i + rest@.len() == all.len(),
                rest@ =~= all.skip(i),
                kept@ =~= all.take(i).filter(keep),
                keep == (|mapped: MappedOutput| mapped.output.id != id),
            decreases rest@.len(),
        {
            let mapped = rest.remove(0);
            proof {
                assert(mapped == all[i]);
                assert(all.take(i + 1).drop_last() =~= all.take(i));
                assert(all.take(i + 1).last() == mapped);
                reveal(Seq::filter);
            }
            if mapped.output.id != id {
                kept.push(mapped);
            }
            proof {
                i = i + 1;
            }
        }
        assert(all.take(i) =~= all);
        self.outputs = kept;
    }

    /// Another space with the same outputs in the same places.
    pub fn duplicate(&self) -> (copy: PhysicalSpace)
        ensures
            copy.outputs@ == self.outputs@,
    {
        let mut outputs: Vec<MappedOutput> = Vec::new();
        let mut i: usize = 0;
        while i < self.outputs.len()
            invariant
                i <= self.outputs@.len(),
                outputs@ =~= self.outputs@.take(i as int),
            decreases self.outputs@.len() - i,
        {
            let mapped: &MappedOutput = &self.outputs[i];
            outputs.push(
                MappedOutput {
                    output: Output {
                        id: mapped.output.id,
                        name: mapped.output.name.clone(),
                        mode: mapped.output.mode,
                        transform: mapped.output.transform,
                    },
                    loc: mapped.loc,
                },
            );
            i += 1;
        }
        PhysicalSpace { outputs }
    }

    /// Tests whether every output ends within 32 bits.
    pub fn edges_in_range(&self) -> (fine: bool)
        ensures
            fine == edges_fit(self.outputs@),
    {
        let mut i: usize = 0;
        while i < self.outputs.len()
            invariant
                i <= self.outputs@.len(),
                edges_fit(self.outputs@.take(i as int)),
            decreases self.outputs@.len() - i,
        {
            let ghost next = self.outputs@.take(i + 1);
            assert(next[i as int] == self.outputs@[i as int]);
            assert forall|j: int| 0 <= j < next.len() implies (right_of(#[trigger] next[j]) matches Some(
                edge,
            ) ==> j < i ==> i32::MIN <= edge <= i32::MAX) by {
                if j < i {
                    assert(next[j] == self.outputs@.take(i as int)[j]);
                }
            }
            match self.outputs[i].geometry() {
                Some(area) => {
                    let edge: i64 = area.loc.x as i64 + area.size.w as i64;
                    if edge > 0x7fff_ffff || edge < -0x8000_0000 {
                        assert(right_of(self.outputs@[i as int]) == Some(edge as int));
                        return false;
                    }
                },
                None => {},
            }
            i += 1;
        }
        assert(self.outputs@.take(i as int) =~= self.outputs@);
        true
    }

    /// Tests whether the outputs side by side stay within 32 bits.
    pub fn row_in_range(&self) -> (fine: bool)
        ensures
            fine == packable(self.outputs@),
    {
        let mut x: i64 = 0;
        let mut i: usize = 0;
        while i < self.outputs.len()
            invariant
                i <= self.outputs@.len(),
                x == width_before(self.outputs@, i as int),
                i32::MIN <= x <= i32::MAX,
                forall|j: int|
                    0 <= j <= i ==> i32::MIN <= #[trigger] width_before(self.outputs@, j)
                        <= i32::MAX,
            decreases self.outputs@.len() - i,
        {
            match self.outputs[i].geometry() {
                Some(area) => {
                    x = x + area.size.w as i64;
                },
                None => {},
            }
            i += 1;
            assert(x == width_before(self.outputs@, i as int));
            if x > 0x7fff_ffff || x < -0x8000_0000 {
                return false;
            }
        }
        true
    }

    /// Where the next output goes: past everything that is there.
    pub fn next_position(&self) -> (x: i32)
        requires
            edges_fit(self.outputs@),
        ensures
            x == next_x(self.outputs@),
    {
        let mut right: Option<i32> = None;
        let mut i: usize = 0;
        assert(self.outputs@.take(0) =~= Seq::empty());
        while i < self.outputs.len()
            invariant
                i <= self.outputs@.len(),
                edges_fit(self.outputs@),
                match right {
                    Some(edge) => rightmost(self.outputs@.take(i as int)) == Some(edge as int),
                    None => rightmost(self.outputs@.take(i as int)) is None,
                },
            decreases self.outputs@.len() - i,
        {
            proof {
                assert(self.outputs@.take(i + 1).drop_last() =~= self.outputs@.take(i as int));
                assert(right_of(self.outputs@[i as int]) == right_of(
                    self.outputs@.take(i + 1).last(),
                ));
            }
            match self.outputs[i].geometry() {
                Some(area) => {
                    let edge: i32 = area.loc.x + area.size.w;
                    right = match right {
                        Some(so_far) => if so_far < edge {
                            Some(edge)
                        } else {
                            Some(so_far)
                        },
                        None => Some(edge),
                    };
                },
                None => {},
            }
            i += 1;
        }
        assert(self.outputs@.take(i as int) =~= self.outputs@);
        match right {
            Some(edge) => edge,
            None => 0,
        }
    }

    /// Packs the outputs from left to right, in the order in which they were
    /// connected.
    pub fn reposition_outputs(&mut self)
        requires
            packable(old(self).outputs@),
        ensures
            final(self).outputs@ == packed(old(self).outputs@),
    {
        let ghost all = self.outputs@;
        let mut x: i32 = 0;
        let mut i: usize = 0;
        while i < self.outputs.len()
            invariant
                i <= all.len(),
                self.outputs@.len() == all.len(),
                packable(all),
                x == width_before(all, i as int),
                forall|j: int| 0 <= j < i ==> self.outputs@[j] == packed(all)[j],
                forall|j: int| i <= j < all.len() ==> self.outputs@[j] == all[j],
            decreases all.len() - i,
        {
            match self.outputs[i].geometry() {
                Some(area) => {
                    assert(width_before(all, i + 1) == x + area.size.w);
                    let mut mapped = self.outputs.remove(i);
                    mapped.loc = Point { x, y: 0 };
                    self.outputs.insert(i, mapped);
                    x = x + area.size.w;
                },
                None => {},
            }
            i += 1;
        }
        assert(self.outputs@ =~= packed(all));
    }
}

/// An identity that is there has a first position.
pub(crate) proof fn lemma_position(outputs: Seq<MappedOutput>, id: u64)
    requires
        is_mapped(outputs, id),
    ensures
        first_at(outputs, id, position_of(outputs, id)),
    decreases outputs.len(),
{
    let rest = outputs.drop_last();
    if is_mapped(rest, id) {
        lemma_position(rest, id);
        let i = position_of(rest, id);
        assert forall|j: int| 0 <= j < i implies (#[trigger] outputs[j]).output.id != id by {
            assert(rest[j] == outputs[j]);
        }
        assert(first_at(outputs, id, i));
    } else {
        let i = outputs.len() - 1;
        assert forall|j: int| 0 <= j < i implies (#[trigger] outputs[j]).output.id != id by {
            assert(rest[j] == outputs[j]);
        }
        assert(first_at(outputs, id, i));
    }
}

proof fn lemma_packed_keeps_widths(outputs: Seq<MappedOutput>, i: int)
    requires
        0 <= i <= outputs.len(),
    ensures
        width_before(packed(outputs), i) == width_before(outputs, i),
    decreases i,
{
    if i > 0 {
        lemma_packed_keeps_widths(outputs, i - 1);
    }
}

proof fn lemma_width_grows(outputs: Seq<MappedOutput>, i: int, j: int)
    requires
        0 <= i <= j <= outputs.len(),
        forall|k: int| 0 <= k < outputs.len() ==> (#[trigger] outputs[k]).width() >= 0,
    ensures
        width_before(outputs, i) <= width_before(outputs, j),
    decreases j,
{
    if i < j {
        lemma_width_grows(outputs, i, j - 1);
    }
}

proof fn lemma_rightmost_bounds(outputs: Seq<MappedOutput>, i: int)
    requires
        0 <= i < outputs.len(),
        right_of(outputs[i]) is Some,
    ensures
        rightmost(outputs) is Some,
        right_of(outputs[i])->0 <= rightmost(outputs)->0,
    decreases outputs.len(),
{
    if i < outputs.len() - 1 {
        assert(outputs.drop_last()[i] == outputs[i]);
        lemma_rightmost_bounds(outputs.drop_last(), i);
    }
}

proof fn lemma_rightmost_is_an_edge(outputs: Seq<MappedOutput>)
    requires
        rightmost(outputs) is Some,
    ensures
        exists|i: int|
            0 <= i < outputs.len() && right_of(#[trigger] outputs[i]) == rightmost(outputs),
    decreases outputs.len(),
{
    let front = outputs.drop_last();
    if rightmost(outputs) == right_of(outputs.last()) {
        assert(right_of(outputs[outputs.len() - 1]) == rightmost(outputs));
    } else {
        lemma_rightmost_is_an_edge(front);
        let i = choose|i: int|
            0 <= i < front.len() && right_of(#[trigger] front[i]) == rightmost(front);
        assert(outputs[i] == front[i]);
    }
}

/// Packing changes nothing but positions: the same outputs, in the order in
/// which they were connected.
pub proof fn packing_preserves_order(outputs: Seq<MappedOutput>)
    ensures
        packed(outputs).len() == outputs.len(),
        forall|i: int|
            0 <= i < outputs.len() ==> (#[trigger] packed(outputs)[i]).output == outputs[i].output,
{
}

/// Packed outputs form one row without gaps or overlaps: each begins where
/// the ones before it end, the first at the left edge, all at the top.
pub proof fn packed_outputs_form_a_row(outputs: Seq<MappedOutput>, i: int)
    requires
        packable(outputs),
        0 <= i < outputs.len(),
        outputs[i].output.mode is Some,
    ensures
        packed(outputs)[i].loc.y == 0,
        packed(outputs)[i].loc.x == width_before(outputs, i),
        packed(outputs)[i].area() matches Some(area) && area.loc.x + area.size.w == width_before(
            outputs,
            i + 1,
        ),
{
}

/// No two packed outputs overlap: of two, the one that was connected first
/// ends before the other begins.
pub proof fn packed_outputs_do_not_overlap(outputs: Seq<MappedOutput>, i: int, j: int)
    requires
        packable(outputs),
        forall|k: int| 0 <= k < outputs.len() ==> (#[trigger] outputs[k]).width() >= 0,
        0 <= i < j < outputs.len(),
        outputs[i].output.mode is Some,
        outputs[j].output.mode is Some,
    ensures
        packed(outputs)[i].area() matches Some(area) && area.loc.x + area.size.w <= packed(
            outputs,
        )[j].loc.x,
{
    packed_outputs_form_a_row(outputs, i);
    packed_outputs_form_a_row(outputs, j);
    lemma_width_grows(outputs, i + 1, j);
}

/// Packing what is packed changes nothing.
pub proof fn packing_is_idempotent(outputs: Seq<MappedOutput>)
    ensures
        packed(packed(outputs)) == packed(outputs),
{
    let once = packed(outputs);
    assert forall|i: int| 0 <= i < once.len() implies packed(once)[i] == once[i] by {
        lemma_packed_keeps_widths(outputs, i);
    }
    assert(packed(once) =~= once);
}

/// A new output overlaps none that is there: they all end before it begins.
pub proof fn next_output_clears_the_others(outputs: Seq<MappedOutput>, i: int)
    requires
        0 <= i < outputs.len(),
    ensures
        outputs[i].area() matches Some(area) ==> area.loc.x + area.size.w <= next_x(outputs),
{
    if outputs[i].area() is Some {
        lemma_rightmost_bounds(outputs, i);
    }
}

/// Next to packed outputs, a new one goes flush with the row.
pub proof fn next_output_joins_the_row(outputs: Seq<MappedOutput>)
    requires
        packable(outputs),
        forall|k: int| 0 <= k < outputs.len() ==> (#[trigger] outputs[k]).width() >= 0,
    ensures
        next_x(packed(outputs)) == width_before(outputs, outputs.len() as int),
{
    let row = packed(outputs);
    let n = outputs.len() as int;
    assert forall|i: int| 0 <= i < n implies (right_of(#[trigger] row[i]) matches Some(edge) ==> edge
        == width_before(outputs, i + 1)) by {
        if outputs[i].output.mode is Some {
            packed_outputs_form_a_row(outputs, i);
        }
    }
    if rightmost(row) is Some {
        lemma_rightmost_is_an_edge(row);
        let i = choose|i: int| 0 <= i < n && right_of(#[trigger] row[i]) == rightmost(row);
        lemma_width_grows(outputs, i + 1, n);
        lemma_last_with_mode(outputs, n);
        let last = choose|k: int|
            0 <= k < n && (#[trigger] outputs[k]).output.mode is Some && width_before(outputs, k + 1)
                == width_before(outputs, n);
        assert(right_of(row[last]) is Some);
        lemma_rightmost_bounds(row, last);
    } else {
        lemma_no_modes_no_width(outputs, n);
    }
}

proof fn lemma_last_with_mode(outputs: Seq<MappedOutput>, n: int)
    requires
        0 <= n <= outputs.len(),
        exists|k: int| 0 <= k < n && (#[trigger] outputs[k]).output.mode is Some,
    ensures
        exists|k: int|
            0 <= k < n && (#[trigger] outputs[k]).output.mode is Some && width_before(outputs, k + 1)
                == width_before(outputs, n),
    decreases n,
{
    if outputs[n - 1].output.mode is None {
        lemma_last_with_mode(outputs, n - 1);
        let k = choose|k: int|
            0 <= k < n - 1 && (#[trigger] outputs[k]).output.mode is Some && width_before(
                outputs,
                k + 1,
            ) == width_before(outputs, n - 1);
        assert(width_before(outputs, k + 1) == width_before(outputs, n));
    }
}

proof fn lemma_no_modes_no_width(outputs: Seq<MappedOutput>, n: int)
    requires
        0 <= n <= outputs.len(),
        rightmost(packed(outputs)) is None,
    ensures
        width_before(outputs, n) == 0,
    decreases n,
{
    if n > 0 {
        lemma_no_modes_no_width(outputs, n - 1);
        if outputs[n - 1].output.mode is Some {
            assert(right_of(packed(outputs)[n - 1]) is Some);
            lemma_rightmost_bounds(packed(outputs), n - 1);
        }
    }
}

/// The area of an output lies where the output does. It is of the size of the
/// mode, with width and height swapped where the content is turned on its side.
pub proof fn an_output_covers_its_mode(mapped: MappedOutput, area: Option<Rectangle>)
    requires
        call_ensures(MappedOutput::geometry, (&mapped,), area),
    ensures
        area is Some <==> mapped.output.mode is Some,
        area matches Some(area) ==> {
            let size = mapped.output.mode->0.size;
            let sideways = mapped.output.transform is Rotated90 || mapped.output.transform
                is Rotated270 || mapped.output.transform is Flipped90 || mapped.output.transform
                is Flipped270;
            &&& area.loc == mapped.loc
            &&& !sideways ==> area.size.w == size.w && area.size.h == size.h
            &&& sideways ==> area.size.w == size.h && area.size.h == size.w
        },
{
}

/// What is known of an output by its identity is what the outputs hold of the
/// first one of that identity.
pub proof fn outputs_are_known_by_identity(
    space: PhysicalSpace,
    id: u64,
    mode: Option<Mode>,
    area: Option<Rectangle>,
    i: int,
)
    requires
        call_ensures(PhysicalSpace::output_mode, (&space, id), mode),
        call_ensures(PhysicalSpace::output_geometry, (&space, id), area),
        0 <= i < space.outputs@.len(),
        space.outputs@[i].output.id == id,
        forall|j: int| 0 <= j < i ==> (#[trigger] space.outputs@[j]).output.id != id,
    ensures
        mode == space.outputs@[i].output.mode,
        area is Some <==> mode is Some,
        area matches Some(area) ==> area.loc == space.outputs@[i].loc,
        forall|own: Option<Rectangle>| #[trigger]
            call_ensures(MappedOutput::geometry, (&space.outputs@[i],), own) ==> area == own,
{
    assert(first_at(space.outputs@, id, i));
    let k = position_of(space.outputs@, id);
    assert(first_at(space.outputs@, id, k));
    assert(k == i);
}

/// Of an identity that is not there, nothing is known.
pub proof fn unknown_outputs_have_nothing(
    space: PhysicalSpace,
    id: u64,
    mode: Option<Mode>,
    area: Option<Rectangle>,
)
    requires
        call_ensures(PhysicalSpace::output_mode, (&space, id), mode),
        call_ensures(PhysicalSpace::output_geometry, (&space, id), area),
        forall|j: int| 0 <= j < space.outputs@.len() ==> (#[trigger] space.outputs@[j]).output.id != id,
    ensures
        mode is None,
        area is None,
{
}

/// Putting an output at a position leaves the others as they are, and in their
/// order. A new one comes last.
pub proof fn mapping_puts_one_output(space: &mut PhysicalSpace, output: Output, loc: Point)
    requires
        call_ensures(PhysicalSpace::map_output, (space, output, loc), ()),
    ensures
        ({
            let was = old(space).outputs@;
            let now = final(space).outputs@;
            let new = forall|j: int| 0 <= j < was.len() ==> (#[trigger] was[j]).output.id != output.id;
            &&& new ==> now == was.push(MappedOutput { output, loc })
            &&& !new ==> now.len() == was.len() && exists|i: int|
                0 <= i < was.len() && (#[trigger] was[i]).output.id == output.id && now
                    == was.update(i, MappedOutput { output, loc }) && forall|j: int|
                    0 <= j < i ==> (#[trigger] was[j]).output.id != output.id
        }),
{
    let was = old(space).outputs@;
    if is_mapped(was, output.id) {
        lemma_position(was, output.id);
        let i = position_of(was, output.id);
        assert(was[i].output.id == output.id);
    }
}

/// Giving an output another mode changes its mode, and nothing else about it or
/// any other.
pub proof fn setting_a_mode_sets_one_mode(space: &mut PhysicalSpace, id: u64, mode: Mode)
    requires
        call_ensures(PhysicalSpace::set_mode, (space, id, mode), ()),
    ensures
        ({
            let was = old(space).outputs@;
            let now = final(space).outputs@;
            &&& now.len() == was.len()
            &&& forall|i: int|
                0 <= i < was.len() ==> {
                    &&& (#[trigger] now[i]).loc == was[i].loc
                    &&& now[i].output.id == was[i].output.id
                    &&& now[i].output.name == was[i].output.name
                    &&& now[i].output.transform == was[i].output.transform
                    &&& now[i].output.mode == if was[i].output.id == id && (forall|j: int|
                        0 <= j < i ==> (#[trigger] was[j]).output.id != id) {
                        Some(mode)
                    } else {
                        was[i].output.mode
                    }
                }
        }),
{
    let was = old(space).outputs@;
    if is_mapped(was, id) {
        lemma_position(was, id);
    }
}

/// Taking an output away takes every output of that identity, and leaves the
/// others in their order.
pub proof fn unmapping_takes_one_identity(space: &mut PhysicalSpace, id: u64, mapped: MappedOutput)
    requires
        call_ensures(PhysicalSpace::unmap_output, (space, id), ()),
    ensures
        final(space).outputs@.contains(mapped) <==> old(space).outputs@.contains(mapped)
            && mapped.output.id != id,
        subsequence(final(space).outputs@, old(space).outputs@),
{
    let keep = |mapped: MappedOutput| mapped.output.id != id;
    crate::state::lemma_filter_members(old(space).outputs@, keep, mapped);
    lemma_filter_in_order(old(space).outputs@, keep);
}

/// Whether the elements of one sequence occur in another, in the same order.
pub open spec fn subsequence<A>(part: Seq<A>, whole: Seq<A>) -> bool {
    exists|at: Seq<int>| #[trigger] embedded(part, whole, at)
}

/// Whether the elements of one sequence stand at these rising positions of
/// another.
pub open spec fn embedded<A>(part: Seq<A>, whole: Seq<A>, at: Seq<int>) -> bool {
    &&& at.len() == part.len()
    &&& forall|i: int|
        0 <= i < part.len() ==> 0 <= #[trigger] at[i] < whole.len() && whole[at[i]] == part[i]
    &&& forall|i: int, j: int| 0 <= i < j < part.len() ==> #[trigger] at[i] < #[trigger] at[j]
}

/// Filtering keeps the order.
pub(crate) proof fn lemma_filter_in_order<A>(s: Seq<A>, keep: spec_fn(A) -> bool)
    ensures
        subsequence(s.filter(keep), s),
    decreases s.len(),
{
    reveal(Seq::filter);
    if s.len() == 0 {
        assert(embedded(s.filter(keep), s, Seq::<int>::empty()));
    } else {
        let rest = s.drop_last();
        lemma_filter_in_order(rest, keep);
        let at = choose|at: Seq<int>| #[trigger] embedded(rest.filter(keep), rest, at);
        assert forall|i: int| 0 <= i < rest.len() implies rest[i] == #[trigger] s[i] by {}
        if keep(s.last()) {
            let more = at.push(s.len() - 1);
            assert forall|i: int| 0 <= i < more.len() implies 0 <= #[trigger] more[i] < s.len()
                && s[more[i]] == s.filter(keep)[i] by {
                if i < at.len() {
                    assert(more[i] == at[i]);
                }
            }
            assert forall|i: int, j: int| 0 <= i < j < more.len() implies #[trigger] more[i]
                < #[trigger] more[j] by {
                assert(more[i] == at[i]);
                if j < at.len() {
                    assert(more[j] == at[j]);
                }
            }
            assert(embedded(s.filter(keep), s, more));
        } else {
            assert(embedded(s.filter(keep), s, at));
        }
    }
}

/// Whether no output with a mode stands between these two, which have one.
pub open spec fn neighbours(outputs: Seq<MappedOutput>, i: int, j: int) -> bool {
    &&& 0 <= i < j < outputs.len()
    &&& outputs[i].output.mode is Some
    &&& outputs[j].output.mode is Some
    &&& forall|k: int| i < k < j ==> (#[trigger] outputs[k]).output.mode is None
}

/// Whether no output with a mode stands before this one, which has one.
pub open spec fn leads(outputs: Seq<MappedOutput>, i: int) -> bool {
    &&& 0 <= i < outputs.len()
    &&& outputs[i].output.mode is Some
    &&& forall|k: int| 0 <= k < i ==> (#[trigger] outputs[k]).output.mode is None
}

/// Whether the outputs that have a mode form one row: the first of them starts
/// at the left edge, every other one where the one before it ends, and all are
/// at the top.
pub open spec fn in_a_row(outputs: Seq<MappedOutput>) -> bool {
    &&& forall|i: int, j: int| #[trigger]
        neighbours(outputs, i, j) ==> outputs[j].loc.x == outputs[i].loc.x
            + outputs[i].output.transform.transformed(outputs[i].output.mode->0.size).w
    &&& forall|i: int| #[trigger] leads(outputs, i) ==> outputs[i].loc.x == 0
    &&& forall|i: int|
        0 <= i < outputs.len() && (#[trigger] outputs[i]).output.mode is Some ==> outputs[i].loc.y
            == 0
}

/// Whether two lists hold the same outputs in the same order, wherever they lie.
/// One without a mode lies where it did.
pub open spec fn same_but_for_places(now: Seq<MappedOutput>, was: Seq<MappedOutput>) -> bool {
    &&& now.len() == was.len()
    &&& forall|i: int|
        0 <= i < was.len() ==> (#[trigger] now[i]).output == was[i].output && (
        was[i].output.mode is None ==> now[i].loc == was[i].loc)
}

pub(crate) proof fn lemma_packed_in_a_row(outputs: Seq<MappedOutput>)
    requires
        packable(outputs),
    ensures
        in_a_row(packed(outputs)),
        same_but_for_places(packed(outputs), outputs),
{
    let row = packed(outputs);
    assert forall|i: int, j: int| #[trigger] neighbours(row, i, j) implies row[j].loc.x
        == row[i].loc.x + row[i].output.transform.transformed(row[i].output.mode->0.size).w by {
        assert forall|k: int| i + 1 <= k < j implies (#[trigger] outputs[k]).output.mode is None by {
            assert(row[k].output.mode is None);
        }
        lemma_no_width_between(outputs, i + 1, j);
        assert(width_before(outputs, i + 1) == width_before(outputs, i) + outputs[i].width());
        assert(i32::MIN <= width_before(outputs, i) <= i32::MAX);
        assert(i32::MIN <= width_before(outputs, j) <= i32::MAX);
    }
    assert forall|i: int| #[trigger] leads(row, i) implies row[i].loc.x == 0 by {
        assert forall|k: int| 0 <= k < i implies (#[trigger] outputs[k]).output.mode is None by {
            assert(row[k].output.mode is None);
        }
        lemma_no_width_between(outputs, 0, i);
    }
}

/// Packed outputs form a row, in the order in which they were connected.
pub proof fn packed_outputs_touch(space: &mut PhysicalSpace)
    requires
        call_ensures(PhysicalSpace::reposition_outputs, (space,), ()),
        packable(old(space).outputs@),
    ensures
        in_a_row(final(space).outputs@),
        same_but_for_places(final(space).outputs@, old(space).outputs@),
{
    lemma_packed_in_a_row(old(space).outputs@);
}

proof fn lemma_no_width_between(outputs: Seq<MappedOutput>, i: int, j: int)
    requires
        0 <= i <= j <= outputs.len(),
        forall|k: int| i <= k < j ==> (#[trigger] outputs[k]).output.mode is None,
    ensures
        width_before(outputs, j) == width_before(outputs, i),
    decreases j - i,
{
    if i < j {
        lemma_no_width_between(outputs, i, j - 1);
        assert(outputs[j - 1].output.mode is None);
    }
}

/// A new output goes to the right edge of one that is there, and no other
/// reaches farther. Without any it goes to the left edge.
pub proof fn the_next_output_goes_last(space: PhysicalSpace, x: i32)
    requires
        call_ensures(PhysicalSpace::next_position, (&space,), x),
    ensures
        forall|i: int|
            0 <= i < space.outputs@.len() && (#[trigger] space.outputs@[i]).output.mode is Some ==> {
                let mapped = space.outputs@[i];
                mapped.loc.x + mapped.output.transform.transformed(mapped.output.mode->0.size).w
                    <= x
            },
        (exists|i: int|
            0 <= i < space.outputs@.len() && (#[trigger] space.outputs@[i]).output.mode is Some)
            ==> exists|i: int|
            0 <= i < space.outputs@.len() && (#[trigger] space.outputs@[i]).output.mode is Some && {
                let mapped = space.outputs@[i];
                mapped.loc.x + mapped.output.transform.transformed(mapped.output.mode->0.size).w
                    == x
            },
        (forall|i: int|
            0 <= i < space.outputs@.len() ==> (#[trigger] space.outputs@[i]).output.mode is None)
            ==> x == 0,
{
    let outputs = space.outputs@;
    assert forall|i: int|
        0 <= i < outputs.len() && (#[trigger] outputs[i]).output.mode is Some implies {
        let mapped = outputs[i];
        mapped.loc.x + mapped.output.transform.transformed(mapped.output.mode->0.size).w <= x
    } by {
        lemma_rightmost_bounds(outputs, i);
    }
    if rightmost(outputs) is Some {
        lemma_rightmost_is_an_edge(outputs);
        let i = choose|i: int|
            0 <= i < outputs.len() && right_of(#[trigger] outputs[i]) == rightmost(outputs);
        assert(outputs[i].output.mode is Some);
    } else if exists|i: int| 0 <= i < outputs.len() && (#[trigger] outputs[i]).output.mode is Some {
        let i = choose|i: int|
            0 <= i < outputs.len() && (#[trigger] outputs[i]).output.mode is Some;
        lemma_rightmost_bounds(outputs, i);
    }
}

/// Outputs whose widths are not negative can be packed as long as they fit side
/// by side.
pub proof fn rows_that_fit_can_be_packed(space: PhysicalSpace, fine: bool)
    requires
        call_ensures(PhysicalSpace::row_in_range, (&space,), fine),
        forall|i: int|
            0 <= i < space.outputs@.len() && (#[trigger] space.outputs@[i]).output.mode is Some
                ==> space.outputs@[i].output.transform.transformed(
                space.outputs@[i].output.mode->0.size,
            ).w >= 0,
        width_before(space.outputs@, space.outputs@.len() as int) <= i32::MAX,
    ensures
        fine,
{
    let outputs = space.outputs@;
    assert forall|k: int| 0 <= k < outputs.len() implies (#[trigger] outputs[k]).width() >= 0 by {
        if outputs[k].output.mode is Some {
        }
    }
    assert forall|i: int| 0 <= i <= outputs.len() implies i32::MIN <= #[trigger] width_before(
        outputs,
        i,
    ) <= i32::MAX by {
        lemma_width_grows(outputs, 0, i);
        lemma_width_grows(outputs, i, outputs.len() as int);
    }
}

/// The width of a row grows by each output's width, and by nothing for one
/// without a mode.
pub proof fn a_row_is_as_wide_as_its_outputs(outputs: Seq<MappedOutput>, i: int)
    requires
        0 <= i < outputs.len(),
    ensures
        width_before(outputs, 0) == 0,
        outputs[i].output.mode is None ==> width_before(outputs, i + 1) == width_before(outputs, i),
        outputs[i].output.mode matches Some(mode) ==> width_before(outputs, i + 1) == width_before(
            outputs,
            i,
        ) + if outputs[i].output.transform.swaps_axes() {
            mode.size.h
        } else {
            mode.size.w
        },
{
}

/// The next position can be told exactly if every output with a mode ends
/// within 32 bits.
pub proof fn edges_within_range_are_fine(space: PhysicalSpace, fine: bool)
    requires
        call_ensures(PhysicalSpace::edges_in_range, (&space,), fine),
    ensures
        fine <==> forall|i: int|
            0 <= i < space.outputs@.len() && (#[trigger] space.outputs@[i]).output.mode is Some
                ==> i32::MIN <= space.outputs@[i].loc.x
                + space.outputs@[i].output.transform.transformed(
                space.outputs@[i].output.mode->0.size,
            ).w <= i32::MAX,
        fine ==> call_requires(PhysicalSpace::next_position, (&space,)),
{
    let outputs = space.outputs@;
    if edges_fit(outputs) {
        assert forall|i: int|
            0 <= i < outputs.len() && (#[trigger] outputs[i]).output.mode is Some implies i32::MIN
            <= outputs[i].loc.x + outputs[i].output.transform.transformed(
            outputs[i].output.mode->0.size,
        ).w <= i32::MAX by {
            assert(right_of(outputs[i]) is Some);
        }
    }
}

/// Outputs of any ordinary number and size fit side by side.
pub(crate) proof fn lemma_ordinary_rows_fit(outputs: Seq<MappedOutput>)
    requires
        outputs.len() <= 0x4000,
        forall|i: int|
            0 <= i < outputs.len() ==> {
                (#[trigger] outputs[i]).output.mode matches Some(mode) ==> 0 <= mode.size.w
                    <= 0x1_0000 && 0 <= mode.size.h <= 0x1_0000
            },
    ensures
        packable(outputs),
{
    assert forall|i: int| 0 <= i <= outputs.len() implies i32::MIN <= #[trigger] width_before(
        outputs,
        i,
    ) <= i32::MAX by {
        lemma_ordinary_width(outputs, i);
    }
}

proof fn lemma_ordinary_width(outputs: Seq<MappedOutput>, i: int)
    requires
        0 <= i <= outputs.len(),
        forall|k: int|
            0 <= k < outputs.len() ==> {
                (#[trigger] outputs[k]).output.mode matches Some(mode) ==> 0 <= mode.size.w
                    <= 0x1_0000 && 0 <= mode.size.h <= 0x1_0000
            },
    ensures
        0 <= width_before(outputs, i) <= i * 0x1_0000,
    decreases i,
{
    if i > 0 {
        lemma_ordinary_width(outputs, i - 1);
        assert(0 <= outputs[i - 1].width() <= 0x1_0000);
    }
}

} // verus!
