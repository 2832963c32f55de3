//! Sequences of depth-tested writes.
//!
//! Whatever is drawn, be it the fragments of a mesh, a line or an orbit,
//! reaches the frame as a sequence of depth-tested writes. What holds of
//! every such sequence is stated here once: the frame keeps the nearest
//! of what was written to each pixel, and a sequence that is written a
//! second time changes nothing.

use crate::fixed::Fixed;
use crate::framebuffer::{write_keeps_the_nearer_depth, Color, Frame};
use crate::line::{line_steps, line_x, line_y};
use vstd::prelude::*;

verus! {

/// One depth-tested write.
pub struct Write {
    pub x: int,
    pub y: int,
    pub color: Color,
    pub depth: Fixed,
}

/// The frame after the first `n` writes.
pub open spec fn put_first(frame: Frame, writes: Seq<Write>, n: nat) -> Frame
    decreases n,
{
    if n == 0 {
        frame
    } else {
        put_first(frame, writes, (n - 1) as nat).put(
            writes[n - 1].x,
            writes[n - 1].y,
            writes[n - 1].color,
            writes[n - 1].depth,
        )
    }
}

/// The frame after all writes, in order.
pub open spec fn put_all(frame: Frame, writes: Seq<Write>) -> Frame {
    put_first(frame, writes, writes.len())
}

/// Whether the write goes to the pixel with the given place in the
/// buffers.
pub open spec fn goes_to(frame: Frame, write: Write, i: int) -> bool {
    frame.in_bounds(write.x, write.y) && frame.index(write.x, write.y) == i
}

/// The pixels of a line as writes with one color and one depth.
pub open spec fn line_writes(
    x0: int,
    y0: int,
    x1: int,
    y1: int,
    color: Color,
    depth: Fixed,
) -> Seq<Write> {
    Seq::new(
        (line_steps(x0, y0, x1, y1) + 1) as nat,
        |k: int|
            Write { x: line_x(x0, y0, x1, y1, k), y: line_y(x0, y0, x1, y1, k), color, depth },
    )
}

/// After any writes the frame has its size, no pixel is farther than it
/// was or than any write that went to it, and each pixel holds either
/// what it held before or the color and the depth of one of those writes.
pub proof fn writes_keep_the_nearest(frame: Frame, writes: Seq<Write>, i: int)
    requires
        frame.wf(),
        0 <= i < frame.width * frame.height,
    ensures
        put_all(frame, writes).wf(),
        put_all(frame, writes).width == frame.width,
        put_all(frame, writes).height == frame.height,
        put_all(frame, writes).background == frame.background,
        put_all(frame, writes).depths[i]@ <= frame.depths[i]@,
        forall|k: int|
            0 <= k < writes.len() && goes_to(frame, #[trigger] writes[k], i) ==> put_all(
                frame,
                writes,
            ).depths[i]@ <= writes[k].depth@,
        (put_all(frame, writes).depths[i] == frame.depths[i] && put_all(frame, writes).colors[i]
            == frame.colors[i]) || (exists|k: int|
            0 <= k < writes.len() && goes_to(frame, #[trigger] writes[k], i) && put_all(
                frame,
                writes,
            ).depths[i] == writes[k].depth && put_all(frame, writes).colors[i]
                == writes[k].color),
{
    lemma_first_writes_keep_the_nearest(frame, writes, writes.len(), i);
}

proof fn lemma_first_writes_keep_the_nearest(frame: Frame, writes: Seq<Write>, n: nat, i: int)
    requires
        frame.wf(),
        0 <= i < frame.width * frame.height,
        n <= writes.len(),
    ensures
        put_first(frame, writes, n).wf(),
        put_first(frame, writes, n).width == frame.width,
        put_first(frame, writes, n).height == frame.height,
        put_first(frame, writes, n).background == frame.background,
        put_first(frame, writes, n).depths[i]@ <= frame.depths[i]@,
        forall|k: int|
            0 <= k < n && goes_to(frame, #[trigger] writes[k], i) ==> put_first(
                frame,
                writes,
                n,
            ).depths[i]@ <= writes[k].depth@,
        (put_first(frame, writes, n).depths[i] == frame.depths[i] && put_first(
            frame,
            writes,
            n,
        ).colors[i] == frame.colors[i]) || (exists|k: int|
            0 <= k < n && goes_to(frame, #[trigger] writes[k], i) && put_first(
                frame,
                writes,
                n,
            ).depths[i] == writes[k].depth && put_first(frame, writes, n).colors[i]
                == writes[k].color),
    decreases n,
{
    if n > 0 {
        let before = put_first(frame, writes, (n - 1) as nat);
        let write = writes[n - 1];
        let after = put_first(frame, writes, n);
        lemma_first_writes_keep_the_nearest(frame, writes, (n - 1) as nat, i);
        write_keeps_the_nearer_depth(before, write.x, write.y, write.color, write.depth);
        assert(goes_to(before, write, i) == goes_to(frame, write, i));
        if goes_to(frame, write, i) && write.depth@ < before.depths[i]@ {
            assert(after.depths[i] == writes[n - 1].depth);
            assert(after.colors[i] == writes[n - 1].color);
        } else {
            assert(after.depths[i] == before.depths[i]);
            assert(after.colors[i] == before.colors[i]);
            if !(before.depths[i] == frame.depths[i] && before.colors[i] == frame.colors[i]) {
                let k = choose|k: int|
                    0 <= k < n - 1 && goes_to(frame, #[trigger] writes[k], i) && before.depths[i]
                        == writes[k].depth && before.colors[i] == writes[k].color;
                assert(0 <= k < n && goes_to(frame, writes[k], i) && after.depths[i]
                    == writes[k].depth && after.colors[i] == writes[k].color);
            }
        }
    }
}

/// Writes that are made a second time change nothing.
pub proof fn writing_twice_changes_nothing(frame: Frame, writes: Seq<Write>)
    requires
        frame.wf(),
    ensures
        put_all(put_all(frame, writes), writes) == put_all(frame, writes),
{
    lemma_second_pass(frame, writes, writes.len());
}

proof fn lemma_second_pass(frame: Frame, writes: Seq<Write>, n: nat)
    requires
        frame.wf(),
        n <= writes.len(),
    ensures
        put_first(put_all(frame, writes), writes, n) == put_all(frame, writes),
    decreases n,
{
    if n > 0 {
        lemma_second_pass(frame, writes, (n - 1) as nat);
        let write = writes[n - 1];
        if frame.in_bounds(write.x, write.y) {
            let i = frame.index(write.x, write.y);
            assert(0 <= i < frame.width * frame.height) by (nonlinear_arith)
                requires
                    0 <= write.x < frame.width,
                    0 <= write.y < frame.height,
                    i == write.y * frame.width + write.x,
            ;
            writes_keep_the_nearest(frame, writes, i);
            assert(goes_to(frame, writes[n - 1], i));
        } else {
            lemma_writes_keep_the_size(frame, writes, writes.len());
        }
    }
}

proof fn lemma_writes_keep_the_size(frame: Frame, writes: Seq<Write>, n: nat)
    requires
        frame.wf(),
        n <= writes.len(),
    ensures
        put_first(frame, writes, n).wf(),
        put_first(frame, writes, n).width == frame.width,
        put_first(frame, writes, n).height == frame.height,
    decreases n,
{
    if n > 0 {
        lemma_writes_keep_the_size(frame, writes, (n - 1) as nat);
        let before = put_first(frame, writes, (n - 1) as nat);
        let write = writes[n - 1];
        write_keeps_the_nearer_depth(before, write.x, write.y, write.color, write.depth);
    }
}

/// The depth buffer does not depend on the order of the writes: two
/// sequences that hold the same writes leave the same depths.
pub proof fn depths_do_not_depend_on_the_order(frame: Frame, one: Seq<Write>, other: Seq<Write>)
    requires
        frame.wf(),
        forall|k: int| 0 <= k < one.len() ==> other.contains(#[trigger] one[k]),
        forall|k: int| 0 <= k < other.len() ==> one.contains(#[trigger] other[k]),
    ensures
        put_all(frame, one).depths == put_all(frame, other).depths,
{
    lemma_writes_keep_the_size(frame, one, one.len());
    lemma_writes_keep_the_size(frame, other, other.len());
    let a = put_all(frame, one);
    let b = put_all(frame, other);
    assert forall|i: int| 0 <= i < frame.width * frame.height implies a.depths[i]
        == b.depths[i] by {
        lemma_no_farther(frame, one, other, i);
        lemma_no_farther(frame, other, one, i);
    }
    assert(a.depths =~= b.depths);
}

/// What one sequence of writes leaves at a pixel is no farther than what
/// another leaves that holds no write but those of the first.
proof fn lemma_no_farther(frame: Frame, one: Seq<Write>, other: Seq<Write>, i: int)
    requires
        frame.wf(),
        0 <= i < frame.width * frame.height,
        forall|k: int| 0 <= k < other.len() ==> one.contains(#[trigger] other[k]),
    ensures
        put_all(frame, one).depths[i]@ <= put_all(frame, other).depths[i]@,
{
    writes_keep_the_nearest(frame, one, i);
    writes_keep_the_nearest(frame, other, i);
    let b = put_all(frame, other);
    if !(b.depths[i] == frame.depths[i] && b.colors[i] == frame.colors[i]) {
        let j = choose|j: int|
            0 <= j < other.len() && goes_to(frame, #[trigger] other[j], i) && b.depths[i]
                == other[j].depth && b.colors[i] == other[j].color;
        assert(one.contains(other[j]));
        let k = choose|k: int| 0 <= k < one.len() && one[k] == other[j];
        assert(goes_to(frame, one[k], i));
    }
}

/// After a clear, a pixel that was written to at a depth below the far
/// depth shows one of the writes that went to it, and none of them is
/// nearer than what it shows.
pub proof fn writes_after_a_clear_show(frame: Frame, writes: Seq<Write>, i: int, k: int)
    requires
        frame.wf(),
        0 <= i < frame.width * frame.height,
        0 <= k < writes.len(),
        goes_to(frame, writes[k], i),
        writes[k].depth@ < 0x7fff_ffff,
    ensures
        put_all(frame.cleared(), writes).depths[i]@ <= writes[k].depth@,
        exists|j: int|
            0 <= j < writes.len() && goes_to(frame, #[trigger] writes[j], i) && put_all(
                frame.cleared(),
                writes,
            ).depths[i] == writes[j].depth && put_all(frame.cleared(), writes).colors[i]
                == writes[j].color,
{
    let blank = frame.cleared();
    writes_keep_the_nearest(blank, writes, i);
    assert(goes_to(blank, writes[k], i));
    let after = put_all(blank, writes);
    let j = choose|j: int|
        0 <= j < writes.len() && goes_to(blank, #[trigger] writes[j], i) && after.depths[i]
            == writes[j].depth && after.colors[i] == writes[j].color;
    assert(goes_to(frame, writes[j], i));
}

/// Writes that follow other writes: one sequence after another is the
/// two in a row.
pub proof fn writes_in_a_row(frame: Frame, first: Seq<Write>, second: Seq<Write>)
    ensures
        put_all(frame, first + second) == put_all(put_all(frame, first), second),
{
    lemma_first_of_a_row(frame, first, second, first.len());
    lemma_rest_of_a_row(frame, first, second, second.len());
}

proof fn lemma_first_of_a_row(frame: Frame, first: Seq<Write>, second: Seq<Write>, n: nat)
    requires
        n <= first.len(),
    ensures
        put_first(frame, first + second, n) == put_first(frame, first, n),
    decreases n,
{
    if n > 0 {
        lemma_first_of_a_row(frame, first, second, (n - 1) as nat);
        assert((first + second)[n - 1] == first[n - 1]);
    }
}

proof fn lemma_rest_of_a_row(frame: Frame, first: Seq<Write>, second: Seq<Write>, n: nat)
    requires
        n <= second.len(),
    ensures
        put_first(frame, first + second, first.len() + n) == put_first(
            put_all(frame, first),
            second,
            n,
        ),
    decreases n,
{
    if n > 0 {
        lemma_rest_of_a_row(frame, first, second, (n - 1) as nat);
        assert((first + second)[first.len() + n - 1] == second[n - 1]);
    } else {
        lemma_first_of_a_row(frame, first, second, first.len());
    }
}

/// Drawing a line is writing its pixels.
pub proof fn line_is_a_sequence_of_writes(
    frame: Frame,
    x0: int,
    y0: int,
    x1: int,
    y1: int,
    color: Color,
    depth: Fixed,
)
    ensures
        frame.put_line(x0, y0, x1, y1, color, depth) == put_all(
            frame,
            line_writes(x0, y0, x1, y1, color, depth),
        ),
{
    lemma_line_prefix_is_writes(
        frame,
        x0,
        y0,
        x1,
        y1,
        color,
        depth,
        (line_steps(x0, y0, x1, y1) + 1) as nat,
    );
}

proof fn lemma_line_prefix_is_writes(
    frame: Frame,
    x0: int,
    y0: int,
    x1: int,
    y1: int,
    color: Color,
    depth: Fixed,
    n: nat,
)
    requires
        n <= line_steps(x0, y0, x1, y1) + 1,
    ensures
        frame.put_line_prefix(x0, y0, x1, y1, color, depth, n) == put_first(
            frame,
            line_writes(x0, y0, x1, y1, color, depth),
            n,
        ),
    decreases n,
{
    if n > 0 {
        lemma_line_prefix_is_writes(frame, x0, y0, x1, y1, color, depth, (n - 1) as nat);
    }
}

/// Drawing a line a second time changes nothing.
pub proof fn drawing_a_line_twice_changes_nothing(
    frame: Frame,
    x0: int,
    y0: int,
    x1: int,
    y1: int,
    color: Color,
    depth: Fixed,
)
    requires
        frame.wf(),
    ensures
        frame.put_line(x0, y0, x1, y1, color, depth).put_line(x0, y0, x1, y1, color, depth)
            == frame.put_line(x0, y0, x1, y1, color, depth),
{
    let writes = line_writes(x0, y0, x1, y1, color, depth);
    line_is_a_sequence_of_writes(frame, x0, y0, x1, y1, color, depth);
    line_is_a_sequence_of_writes(put_all(frame, writes), x0, y0, x1, y1, color, depth);
    writing_twice_changes_nothing(frame, writes);
}

} // verus!
