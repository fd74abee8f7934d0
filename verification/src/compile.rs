//! From a template to the cheapest thing that renders it.
//!
//! A template is expanded, its adjacent literals are merged and its empty
//! ones dropped, and its slots are held against the modes they ask for. What
//! is left has one of four shapes, and the shape decides how it is written.

use vstd::prelude::*;
use vstd::string::StringExecFns;
use crate::template::{Part, PartView, TemplateError, TemplateErrorView, Token};
use crate::value::{Capture, RenderMode};
use crate::write::Write;

verus! {

/// What a compiled template is made of.
#[derive(Clone, Copy, Debug, PartialEq, Eq)]
pub enum Shape {
    /// No part at all.
    Empty,
    /// Literal text only.
    AllLiteral,
    /// One slot, rendered as it stands and captured by reference.
    SinglePassthrough,
    /// Anything else.
    Aggregate,
}

/// The parts with every run of adjacent literals merged into one and every
/// empty literal dropped. Nothing else moves.
pub open spec fn spec_coalesce(parts: Seq<PartView>) -> Seq<PartView>
    decreases parts.len(),
{
    if parts.len() == 0 {
        Seq::empty()
    } else {
        let front = spec_coalesce(parts.drop_last());
        match parts.last() {
            PartView::Text(t) => if t.len() == 0 {
                front
            } else if front.len() > 0 && front.last() is Text {
                front.drop_last().push(PartView::Text(front.last()->Text_0 + t))
            } else {
                front.push(PartView::Text(t))
            },
            other => front.push(other),
        }
    }
}

/// Whether no literal is empty and no two literals are adjacent.
pub open spec fn canonical(parts: Seq<PartView>) -> bool {
    &&& forall|i: int|
        0 <= i < parts.len() ==> (#[trigger] parts[i] matches PartView::Text(t) ==> t.len() > 0)
    &&& forall|i: int|
        0 < i < parts.len() ==> !(parts[i - 1] is Text && #[trigger] parts[i] is Text)
}

/// The shape of a sequence of parts.
pub open spec fn spec_shape(parts: Seq<PartView>) -> Shape {
    if parts.len() == 0 {
        Shape::Empty
    } else if forall|i: int| 0 <= i < parts.len() ==> #[trigger] parts[i] is Text {
        Shape::AllLiteral
    } else if parts.len() == 1 && (parts[0] matches PartView::Slot(slot) && slot.mode
        == RenderMode::Plain && slot.capture == Capture::ByReference) {
        Shape::SinglePassthrough
    } else {
        Shape::Aggregate
    }
}

/// A lower bound, in bytes, on what one part writes, known without rendering
/// it.
pub open spec fn part_hint(part: PartView) -> nat {
    match part {
        PartView::Text(t) => crate::utils::byte_len(t),
        PartView::Slot(slot) => slot.value.hint(slot.mode),
        PartView::Iterate(_) => 0,
    }
}

/// The hints of the parts, added up.
pub open spec fn spec_size_hint(parts: Seq<PartView>) -> nat
    decreases parts.len(),
{
    if parts.len() == 0 {
        0
    } else {
        spec_size_hint(parts.drop_last()) + part_hint(parts.last())
    }
}

/// Whether what the parts write is known to end a line: the last part is
/// literal text that ends in a line terminator.
pub open spec fn spec_ends_in_terminator(parts: Seq<PartView>) -> bool {
    parts.len() > 0 && (parts.last() matches PartView::Text(t) && t.len() > 0 && t.last() == '\n')
}

/// Whether `k` is the place of the first part whose values cannot be rendered
/// in the modes asked for.
pub open spec fn incapable_at(parts: Seq<PartView>, k: int) -> bool {
    &&& 0 <= k < parts.len()
    &&& !crate::render::part_capable(parts[k])
    &&& forall|j: int| 0 <= j < k ==> crate::render::part_capable(#[trigger] parts[j])
}

/// What is coalesced is canonical.
pub proof fn lemma_coalesce_canonical(parts: Seq<PartView>)
    ensures
        canonical(spec_coalesce(parts)),
    decreases parts.len(),
{
    if parts.len() != 0 {
        lemma_coalesce_canonical(parts.drop_last());
    }
}

/// Coalescing leaves what is canonical as it is.
pub proof fn lemma_coalesce_of_canonical(parts: Seq<PartView>)
    requires
        canonical(parts),
    ensures
        spec_coalesce(parts) == parts,
    decreases parts.len(),
{
    if parts.len() != 0 {
        let front = parts.drop_last();
        assert(canonical(front)) by {
            assert forall|i: int| 0 <= i < front.len() implies (
            #[trigger] front[i] matches PartView::Text(t) ==> t.len() > 0) by {
                assert(front[i] == parts[i]);
            }
            assert forall|i: int| 0 < i < front.len() implies !(front[i - 1] is Text
                && #[trigger] front[i] is Text) by {
                assert(front[i] == parts[i]);
                assert(front[i - 1] == parts[i - 1]);
            }
        }
        lemma_coalesce_of_canonical(front);
        let last = parts.last();
        assert(parts[parts.len() - 1] == last);
        if front.len() > 0 {
            assert(front.last() == parts[parts.len() - 2]);
        }
        assert(front.push(last) =~= parts);
    }
}

/// Coalescing twice is coalescing once.
pub proof fn lemma_coalesce_idempotent(parts: Seq<PartView>)
    ensures
        spec_coalesce(spec_coalesce(parts)) == spec_coalesce(parts),
{
    lemma_coalesce_canonical(parts);
    lemma_coalesce_of_canonical(spec_coalesce(parts));
}

/// The text of parts with one more part.
pub proof fn lemma_parts_text_push(parts: Seq<PartView>, part: PartView)
    ensures
        crate::render::parts_text(parts.push(part)) == crate::render::parts_text(parts)
            + crate::render::part_pieces(part).flatten(),
{
    crate::render::lemma_parts_text_concat(parts, seq![part]);
    crate::render::lemma_parts_pieces_one(part);
    assert(parts + seq![part] =~= parts.push(part));
}

/// The text of one piece is the piece.
pub proof fn lemma_flatten_one(piece: Seq<char>)
    ensures
        seq![piece].flatten() == piece,
{
    let s = seq![piece];
    assert(s.drop_first() =~= Seq::<Seq<char>>::empty());
    assert(s.drop_first().flatten() =~= Seq::<char>::empty());
    assert(s.flatten() =~= piece);
}

/// Coalescing is not seen in the output: the text stays the same.
pub proof fn lemma_coalesce_keeps_text(parts: Seq<PartView>)
    ensures
        crate::render::parts_text(spec_coalesce(parts)) == crate::render::parts_text(parts),
    decreases parts.len(),
{
    if parts.len() == 0 {
    } else {
        let before = parts.drop_last();
        let front = spec_coalesce(before);
        lemma_coalesce_keeps_text(before);
        lemma_parts_text_push(before, parts.last());
        assert(before.push(parts.last()) =~= parts);
        match parts.last() {
            PartView::Text(t) => {
                lemma_flatten_one(t);
                if t.len() == 0 {
                    assert(crate::render::parts_text(before) + t =~= crate::render::parts_text(
                        before,
                    ));
                } else if front.len() > 0 && front.last() is Text {
                    let u = front.last()->Text_0;
                    let stem = front.drop_last();
                    lemma_parts_text_push(stem, PartView::Text(u));
                    lemma_parts_text_push(stem, PartView::Text(u + t));
                    lemma_flatten_one(u);
                    lemma_flatten_one(u + t);
                    assert(stem.push(PartView::Text(u)) =~= front);
                    assert(crate::render::parts_text(stem) + (u + t) =~= (
                    crate::render::parts_text(stem) + u) + t);
                } else {
                    lemma_parts_text_push(front, PartView::Text(t));
                }
            },
            other => {
                lemma_parts_text_push(front, other);
            },
        }
    }
}

/// What follows a place is coalesced the same way after two sequences that
/// coalesce to the same.
pub proof fn lemma_coalesce_same_front(a: Seq<PartView>, b: Seq<PartView>, rest: Seq<PartView>)
    requires
        spec_coalesce(a) == spec_coalesce(b),
    ensures
        spec_coalesce(a + rest) == spec_coalesce(b + rest),
    decreases rest.len(),
{
    if rest.len() == 0 {
        assert(a + rest =~= a);
        assert(b + rest =~= b);
    } else {
        lemma_coalesce_same_front(a, b, rest.drop_last());
        assert((a + rest).drop_last() =~= a + rest.drop_last());
        assert((b + rest).drop_last() =~= b + rest.drop_last());
        assert((a + rest).last() == rest.last());
        assert((b + rest).last() == rest.last());
    }
}

/// A literal written in one piece or in two coalesces to the same.
pub proof fn lemma_coalesce_split(
    before: Seq<PartView>,
    x: Seq<char>,
    y: Seq<char>,
    after: Seq<PartView>,
)
    ensures
        spec_coalesce(before + seq![PartView::Text(x + y)] + after) == spec_coalesce(
            before + seq![PartView::Text(x), PartView::Text(y)] + after,
        ),
{
    let one = before + seq![PartView::Text(x + y)];
    let two = before + seq![PartView::Text(x), PartView::Text(y)];
    let mid = before + seq![PartView::Text(x)];
    assert(one.drop_last() =~= before);
    assert(one.last() == PartView::Text(x + y));
    assert(two.drop_last() =~= mid);
    assert(two.last() == PartView::Text(y));
    assert(mid.drop_last() =~= before);
    assert(mid.last() == PartView::Text(x));
    let front = spec_coalesce(before);
    if x.len() == 0 {
        assert(x + y =~= y);
        assert(spec_coalesce(mid) == front);
    } else if y.len() == 0 {
        assert(x + y =~= x);
        assert(spec_coalesce(two) == spec_coalesce(mid));
    } else if front.len() > 0 && front.last() is Text {
        let u = front.last()->Text_0;
        let stem = front.drop_last();
        let merged = stem.push(PartView::Text(u + x));
        assert(spec_coalesce(mid) == merged);
        assert(merged.drop_last() =~= stem);
        assert(merged.last() == PartView::Text(u + x));
        assert((u + x) + y =~= u + (x + y));
        assert(spec_coalesce(two) == stem.push(PartView::Text((u + x) + y)));
        assert(spec_coalesce(one) == stem.push(PartView::Text(u + (x + y))));
    } else {
        let pushed = front.push(PartView::Text(x));
        assert(spec_coalesce(mid) == pushed);
        assert(pushed.drop_last() =~= front);
        assert(pushed.last() == PartView::Text(x));
        assert(spec_coalesce(two) == front.push(PartView::Text(x + y)));
        assert(spec_coalesce(one) == front.push(PartView::Text(x + y)));
    }
    assert(spec_coalesce(one) == spec_coalesce(two));
    lemma_coalesce_same_front(one, two, after);
}

/// The hint never promises more than is written.
pub proof fn lemma_size_hint_is_lower_bound(parts: Seq<PartView>)
    ensures
        spec_size_hint(parts) <= crate::utils::byte_len(crate::render::parts_text(parts)),
    decreases parts.len(),
{
    if parts.len() != 0 {
        let front = parts.drop_last();
        lemma_size_hint_is_lower_bound(front);
        lemma_parts_text_push(front, parts.last());
        assert(front.push(parts.last()) =~= parts);
        let tail = crate::render::part_pieces(parts.last()).flatten();
        crate::utils::lemma_byte_len_concat(crate::render::parts_text(front), tail);
        match parts.last() {
            PartView::Text(t) => {
                lemma_flatten_one(t);
            },
            PartView::Slot(slot) => {
                lemma_flatten_one(slot.value.rendered(slot.mode));
                crate::value::lemma_hint_is_lower_bound(slot.value, slot.mode);
            },
            PartView::Iterate(_) => {},
        }
    }
}

/// What is known to end a line does end in a line terminator.
pub proof fn lemma_ends_in_terminator(parts: Seq<PartView>)
    requires
        spec_ends_in_terminator(parts),
    ensures
        crate::render::parts_text(parts).len() > 0,
        crate::render::parts_text(parts).last() == '\n',
{
    let front = parts.drop_last();
    lemma_parts_text_push(front, parts.last());
    assert(front.push(parts.last()) =~= parts);
    lemma_flatten_one(parts.last()->Text_0);
}

/// What has been coalesced so far: the parts that are settled, and after them
/// the literal text that may still grow.
pub open spec fn with_pending(held: Seq<PartView>, pending: Seq<char>) -> Seq<PartView> {
    if pending.len() > 0 {
        held.push(PartView::Text(pending))
    } else {
        held
    }
}

/// One more literal joins the text that may still grow.
pub proof fn lemma_coalesce_literal(
    prefix: Seq<PartView>,
    held: Seq<PartView>,
    pending: Seq<char>,
    t: Seq<char>,
)
    requires
        spec_coalesce(prefix) == with_pending(held, pending),
        held.len() > 0 ==> !(held.last() is Text),
    ensures
        spec_coalesce(prefix.push(PartView::Text(t))) == with_pending(held, pending + t),
{
    let next = prefix.push(PartView::Text(t));
    let front = spec_coalesce(prefix);
    assert(next.drop_last() =~= prefix);
    assert(next.last() == PartView::Text(t));
    if t.len() == 0 {
        assert(pending + t =~= pending);
    } else if pending.len() > 0 {
        assert(front.last() == PartView::Text(pending));
        assert(front.drop_last() =~= held);
    } else {
        assert(pending + t =~= t);
    }
}

/// A part that is no literal settles the text before it and itself.
pub proof fn lemma_coalesce_other(
    prefix: Seq<PartView>,
    held: Seq<PartView>,
    pending: Seq<char>,
    part: PartView,
)
    requires
        spec_coalesce(prefix) == with_pending(held, pending),
        !(part is Text),
    ensures
        spec_coalesce(prefix.push(part)) == with_pending(held, pending).push(part),
{
    let next = prefix.push(part);
    assert(next.drop_last() =~= prefix);
    assert(next.last() == part);
}

/// Merges every run of adjacent literals into one and drops the empty ones.
/// Slots and iterations keep their places.
pub fn coalesce(parts: Vec<Part>) -> (out: Vec<Part>)
    ensures
        crate::template::part_views(out@) == spec_coalesce(crate::template::part_views(parts@)),
        canonical(crate::template::part_views(out@)),
{
    let ghost views = crate::template::part_views(parts@);
    let ghost all = parts@;
    let mut out: Vec<Part> = Vec::new();
    let mut pending = String::new();
    proof {
        assert(views.take(0) =~= Seq::<PartView>::empty());
        assert(crate::template::part_views(out@) =~= Seq::<PartView>::empty());
    }
    for part in it: parts.into_iter()
        invariant
            it.seq() == all,
            views == crate::template::part_views(all),
            out.len() > 0 ==> !(crate::template::part_views(out@).last() is Text),
            spec_coalesce(views.take(it.index() as int)) == with_pending(
                crate::template::part_views(out@),
                pending@,
            ),
    {
        let ghost k = it.index() as int;
        let ghost held = crate::template::part_views(out@);
        let ghost was = pending@;
        proof {
            assert(views.take(k + 1) =~= views.take(k).push(views[k]));
            assert(views[k] == part@);
        }
        match part {
            Part::Literal(s) => {
                pending.append(s.as_str());
                proof {
                    lemma_coalesce_literal(views.take(k), held, was, s@);
                }
            },
            other => {
                let ghost view = other@;
                proof {
                    lemma_coalesce_other(views.take(k), held, was, view);
                }
                if !pending.as_str().is_empty() {
                    out.push(Part::Literal(pending));
                    pending = String::new();
                    proof {
                        assert(crate::template::part_views(out@) =~= held.push(
                            PartView::Text(was),
                        ));
                    }
                }
                let ghost settled = crate::template::part_views(out@);
                out.push(other);
                proof {
                    assert(crate::template::part_views(out@) =~= settled.push(view));
                }
            },
        }
    }
    proof {
        assert(views.take(all.len() as int) =~= views);
        lemma_coalesce_canonical(views);
    }
    if !pending.as_str().is_empty() {
        let ghost held = crate::template::part_views(out@);
        let ghost text = pending@;
        out.push(Part::Literal(pending));
        proof {
            assert(crate::template::part_views(out@) =~= held.push(PartView::Text(text)));
        }
    }
    out
}

/// Whether the iteration can be rendered: the values its template holds of
/// its own in their modes, and every element in every mode asked of it.
pub fn iterate_is_capable(iterate: &crate::template::Iterate) -> (b: bool)
    ensures
        b == crate::render::iterate_capable(iterate@),
{
    let ghost view = iterate@;
    let mut k: usize = 0;
    while k < iterate.body.len()
        invariant
            k <= iterate.body.len(),
            view == iterate@,
            forall|j: int|
                0 <= j < k ==> (#[trigger] view.body[j] matches crate::template::ItemPart::Slot(
                    slot,
                ) ==> slot.value.supports(slot.mode)),
        decreases iterate.body.len() - k,
    {
        assert(view.body[k as int] == iterate.body@[k as int]@);
        match &iterate.body[k] {
            crate::template::ItemToken::Slot(slot) => {
                if !slot.value.supports(&slot.mode) {
                    return false;
                }
            },
            _ => {},
        }
        k = k + 1;
    }
    let mut i: usize = 0;
    while i < iterate.source.len()
        invariant
            i <= iterate.source.len(),
            view == iterate@,
            crate::render::slots_capable(view.body),
            forall|a: int|
                0 <= a < i ==> crate::render::item_capable(view.body, #[trigger] view.source[a]),
        decreases iterate.source.len() - i,
    {
        let ghost item = view.source[i as int];
        assert(item == iterate.source@[i as int]@);
        let mut j: usize = 0;
        while j < iterate.body.len()
            invariant
                i < iterate.source.len(),
                j <= iterate.body.len(),
                view == iterate@,
                item == view.source[i as int],
                item == iterate.source@[i as int]@,
                crate::render::slots_capable(view.body),
                forall|b: int|
                    0 <= b < j ==> crate::render::item_part_capable(#[trigger] view.body[b], item),
            decreases iterate.body.len() - j,
        {
            assert(view.body[j as int] == iterate.body@[j as int]@);
            match &iterate.body[j] {
                crate::template::ItemToken::Item(mode) => {
                    if !iterate.source[i].supports(mode) {
                        proof {
                            assert(!crate::render::item_part_capable(view.body[j as int], item));
                            assert(!crate::render::item_capable(view.body, view.source[i as int]));
                        }
                        return false;
                    }
                },
                _ => {},
            }
            j = j + 1;
        }
        i = i + 1;
    }
    true
}

/// Whether the values of the part can be rendered in the modes asked for.
pub fn part_is_capable(part: &Part) -> (b: bool)
    ensures
        b == crate::render::part_capable(part@),
{
    match part {
        Part::Literal(_) => true,
        Part::Slot(slot) => slot.value.supports(&slot.mode),
        Part::Iterate(iterate) => iterate_is_capable(iterate),
    }
}

/// Holds every slot and every iteration against the modes asked for, and
/// names the place of the first part that lacks one.
pub fn check_capabilities(parts: &Vec<Part>) -> (r: Result<(), TemplateError>)
    ensures
        r is Ok <==> crate::render::parts_capable(crate::template::part_views(parts@)),
        r matches Err(e) ==> (e@ matches TemplateErrorView::MissingCapability(k) && incapable_at(
            crate::template::part_views(parts@),
            k as int,
        )),
{
    let ghost views = crate::template::part_views(parts@);
    let mut i: usize = 0;
    while i < parts.len()
        invariant
            i <= parts.len(),
            views == crate::template::part_views(parts@),
            forall|j: int| 0 <= j < i ==> crate::render::part_capable(#[trigger] views[j]),
        decreases parts.len() - i,
    {
        assert(views[i as int] == parts@[i as int]@);
        if !part_is_capable(&parts[i]) {
            return Err(TemplateError::MissingCapability(i));
        }
        i = i + 1;
    }
    Ok(())
}

/// The shape of the parts.
pub fn select_shape(parts: &Vec<Part>) -> (shape: Shape)
    ensures
        shape == spec_shape(crate::template::part_views(parts@)),
{
    let ghost views = crate::template::part_views(parts@);
    if parts.len() == 0 {
        return Shape::Empty;
    }
    let mut i: usize = 0;
    let mut literal = true;
    while i < parts.len()
        invariant
            i <= parts.len(),
            views == crate::template::part_views(parts@),
            literal <==> forall|j: int| 0 <= j < i ==> #[trigger] views[j] is Text,
        decreases parts.len() - i,
    {
        assert(views[i as int] == parts@[i as int]@);
        match &parts[i] {
            Part::Literal(_) => {},
            _ => {
                literal = false;
            },
        }
        i = i + 1;
    }
    if literal {
        return Shape::AllLiteral;
    }
    assert(views[0] == parts@[0]@);
    if parts.len() == 1 {
        match &parts[0] {
            Part::Slot(slot) => {
                let plain = match slot.mode {
                    RenderMode::Plain => true,
                    _ => false,
                };
                let by_reference = match slot.capture {
                    Capture::ByReference => true,
                    Capture::ByValue => false,
                };
                if plain && by_reference {
                    return Shape::SinglePassthrough;
                }
            },
            _ => {},
        }
    }
    Shape::Aggregate
}

/// A compiled template. It holds what it renders and nothing that changes,
/// so it can be written any number of times.
#[derive(Debug)]
pub struct Renderable {
    parts: Vec<Part>,
    shape: Shape,
}

impl View for Renderable {
    type V = Seq<PartView>;

    closed spec fn view(&self) -> Seq<PartView> {
        crate::template::part_views(self.parts@)
    }
}

impl Renderable {
    #[verifier::type_invariant]
    closed spec fn inv(self) -> bool {
        &&& crate::render::parts_capable(crate::template::part_views(self.parts@))
        &&& self.shape == spec_shape(crate::template::part_views(self.parts@))
    }

    /// The pieces of text it hands to a sink, in order.
    pub open spec fn pieces(&self) -> Seq<Seq<char>> {
        crate::render::parts_pieces(self@)
    }

    /// The text it renders.
    pub open spec fn text(&self) -> Seq<char> {
        crate::render::parts_text(self@)
    }

    /// Its shape.
    pub fn shape(&self) -> (shape: Shape)
        ensures
            shape == spec_shape(self@),
    {
        proof {
            use_type_invariant(self);
        }
        self.shape
    }

    /// Writes the pieces in order. The first write that fails ends the
    /// writing, and its error is returned as it is.
    pub fn write_to<W: Write>(&self, w: &mut W) -> (r: Result<(), W::Error>)
        ensures
            crate::write::run(*old(w), crate::write::text_ops(self.pieces()), *final(w), r),
    {
        proof {
            use_type_invariant(self);
        }
        let ghost start = *w;
        let ghost views = crate::template::part_views(self.parts@);
        match self.shape {
            Shape::Empty => {
                proof {
                    assert(crate::write::text_ops(crate::render::parts_pieces(views))
                        =~= Seq::<crate::write::SinkOp>::empty());
                }
                Ok(())
            },
            Shape::SinglePassthrough => {
                assert(views[0] == self.parts@[0]@);
                match &self.parts[0] {
                    Part::Slot(slot) => {
                        let r = slot.value.write_to(&slot.mode, w);
                        proof {
                            crate::render::lemma_run_piece(
                                start,
                                slot@.value.rendered(slot@.mode),
                                *w,
                                r,
                            );
                            crate::render::lemma_parts_pieces_one(views[0]);
                            assert(views =~= seq![views[0]]);
                        }
                        r
                    },
                    _ => crate::render::write_parts(&self.parts, w),
                }
            },
            _ => crate::render::write_parts(&self.parts, w),
        }
    }

    /// Writes the pieces, then a line terminator if `newline`, then flushes
    /// if `flush`, unless the sink is line buffered and what was written is
    /// known to end a line. A failure ends it.
    pub fn write_advanced<W: Write>(&self, w: &mut W, flush: bool, newline: bool) -> (r: Result<
        (),
        W::Error,
    >)
        ensures
            crate::write::run(
                *old(w),
                crate::write_to::write_ops(
                    self.pieces(),
                    newline,
                    flush,
                    W::IS_LINE_BUFFERED,
                    spec_ends_in_terminator(self@),
                ),
                *final(w),
                r,
            ),
    {
        let known = self.ends_in_terminator();
        let ghost start = *w;
        let first = self.write_to(w);
        let ghost mid = *w;
        let r = crate::write_to::finish_write(w, first, flush, newline, known);
        proof {
            crate::write_to::lemma_finished_run(
                start,
                self.pieces(),
                mid,
                first,
                newline,
                flush,
                known,
                *w,
                r,
            );
        }
        r
    }

    /// A lower bound, in bytes, on what is written: the hints of the parts
    /// added up, or the greatest number there is if that is less.
    pub fn size_hint(&self) -> (n: usize)
        ensures
            n == if spec_size_hint(self@) <= usize::MAX {
                spec_size_hint(self@)
            } else {
                usize::MAX as nat
            },
            n <= crate::utils::byte_len(self.text()),
    {
        let ghost views = crate::template::part_views(self.parts@);
        proof {
            lemma_size_hint_is_lower_bound(views);
        }
        let mut total: usize = 0;
        let mut i: usize = 0;
        proof {
            assert(views.take(0) =~= Seq::<PartView>::empty());
        }
        while i < self.parts.len()
            invariant
                i <= self.parts.len(),
                views == crate::template::part_views(self.parts@),
                total == if spec_size_hint(views.take(i as int)) <= usize::MAX {
                    spec_size_hint(views.take(i as int))
                } else {
                    usize::MAX as nat
                },
            decreases self.parts.len() - i,
        {
            proof {
                assert(views.take(i + 1).drop_last() =~= views.take(i as int));
                assert(views.take(i + 1).last() == views[i as int]);
                assert(views[i as int] == self.parts@[i as int]@);
            }
            let hint = match &self.parts[i] {
                Part::Literal(s) => crate::value::byte_length(s.as_str()),
                Part::Slot(slot) => slot.value.len_hint(&slot.mode),
                Part::Iterate(_) => 0,
            };
            total = if hint <= usize::MAX - total {
                total + hint
            } else {
                usize::MAX
            };
            i = i + 1;
        }
        proof {
            assert(views.take(i as int) =~= views);
        }
        total
    }

    /// Whether what is written is known to end a line.
    pub fn ends_in_terminator(&self) -> (b: bool)
        ensures
            b == spec_ends_in_terminator(self@),
            b ==> crate::write_to::ends_line(self.text()),
    {
        let ghost views = crate::template::part_views(self.parts@);
        proof {
            if spec_ends_in_terminator(views) {
                lemma_ends_in_terminator(views);
            }
        }
        if self.parts.len() == 0 {
            return false;
        }
        let last = self.parts.len() - 1;
        assert(views[last as int] == self.parts@[last as int]@);
        match &self.parts[last] {
            Part::Literal(s) => text_ends_line(s.as_str()),
            _ => false,
        }
    }

    /// The text it renders, in a new `String`.
    pub fn to_string(&self) -> (s: String)
        ensures
            s@ == self.text(),
    {
        let mut s = String::new();
        let ghost start = s;
        let r = self.write_to(&mut s);
        proof {
            crate::write::lemma_run_string(start, crate::write::text_ops(self.pieces()), s, r);
            crate::write::lemma_text_ops_text(self.pieces());
            assert(start@ + self.text() =~= self.text());
        }
        s
    }
}

/// Whether `s` ends in a line terminator.
pub fn text_ends_line(s: &str) -> (b: bool)
    ensures
        b == (s@.len() > 0 && s@.last() == '\n'),
{
    let mut last_is_newline = false;
    for c in it: s.chars()
        invariant
            it.seq() == s@,
            last_is_newline == (it.index() > 0 && s@[it.index() - 1] == '\n'),
    {
        last_is_newline = c == '\n';
    }
    last_is_newline
}

/// Why a template does not compile, if it does not: it is rejected, or its
/// coalesced expansion holds a part that lacks a capability.
pub open spec fn spec_compiles(tokens: Seq<Token>) -> bool {
    crate::template::spec_rejection(tokens) is None && crate::render::parts_capable(
        spec_coalesce(crate::template::spec_expand(tokens)),
    )
}

/// Whether `e` is why the template does not compile: its rejection if it is
/// rejected, and else the place of the first part of its coalesced expansion
/// that lacks a capability.
pub open spec fn fails_as(tokens: Seq<Token>, e: TemplateErrorView) -> bool {
    match crate::template::spec_rejection(tokens) {
        Some(rejection) => e == rejection,
        None => e matches TemplateErrorView::MissingCapability(k) && incapable_at(
            spec_coalesce(crate::template::spec_expand(tokens)),
            k as int,
        ),
    }
}

/// Compiles a template: expands its directives, merges its literals, holds
/// its slots against their modes, and picks the shape.
pub fn compile(tokens: Vec<Token>) -> (r: Result<Renderable, TemplateError>)
    ensures
        r is Ok <==> spec_compiles(tokens@),
        r matches Ok(compiled) ==> compiled@ == spec_coalesce(
            crate::template::spec_expand(tokens@),
        ),
        r matches Err(e) ==> fails_as(tokens@, e@),
{
    let expanded = match crate::template::expand(tokens) {
        Ok(parts) => parts,
        Err(e) => {
            return Err(e);
        },
    };
    let parts = coalesce(expanded);
    match check_capabilities(&parts) {
        Ok(()) => {},
        Err(e) => {
            return Err(e);
        },
    }
    let shape = select_shape(&parts);
    Ok(Renderable { parts, shape })
}

/// Compiles a template and renders it into a new `String`: the text of its
/// tokens, each in its place.
pub fn format_text(tokens: Vec<Token>) -> (r: Result<String, TemplateError>)
    ensures
        r is Ok <==> spec_compiles(tokens@),
        r matches Ok(text) ==> text@ == crate::render::parts_text(
            crate::template::spec_expand(tokens@),
        ),
        r matches Err(e) ==> fails_as(tokens@, e@),
{
    match compile(tokens) {
        Ok(compiled) => {
            proof {
                lemma_coalesce_keeps_text(crate::template::spec_expand(tokens@));
            }
            Ok(compiled.to_string())
        },
        Err(e) => Err(e),
    }
}

/// Compiles a template and writes it to a sink, and flushes the sink unless
/// it is line buffered and the template is known to end a line. A template
/// that does not compile leaves the sink as it is.
pub fn format_to<W: Write>(w: &mut W, tokens: Vec<Token>) -> (r: Result<
    Result<(), W::Error>,
    TemplateError,
>)
    ensures
        r is Ok <==> spec_compiles(tokens@),
        r matches Ok(written) ==> crate::write::run(
            *old(w),
            format_ops(
                spec_coalesce(crate::template::spec_expand(tokens@)),
                W::IS_LINE_BUFFERED,
            ),
            *final(w),
            written,
        ),
        r matches Err(e) ==> fails_as(tokens@, e@) && *final(w) == *old(w),
{
    match compile(tokens) {
        Ok(compiled) => Ok(compiled.write_advanced(w, true, false)),
        Err(e) => Err(e),
    }
}

/// What writing compiled parts and flushing does to a sink: the pieces in
/// order, and a flush unless the sink is line buffered and the parts are
/// known to end a line.
pub open spec fn format_ops(parts: Seq<PartView>, line_buffered: bool) -> Seq<
    crate::write::SinkOp,
> {
    crate::write_to::write_ops(
        crate::render::parts_pieces(parts),
        false,
        true,
        line_buffered,
        spec_ends_in_terminator(parts),
    )
}

} // verus!
