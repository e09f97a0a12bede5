//! The geometry matcher: reads the rectangles of an image map and picks the
//! region that lies where the crossword is printed.

use crate::markup::{is_readable, names_chars, rows_chars, select_attrs, selected_attrs};
use crate::text::{
    chars_of, free_of, i32_of, lemma_split_concat, lemma_split_single, parse_i32, split, trim,
    trim_chars,
};
use crate::types::Rect;
use vstd::math::abs;
use vstd::prelude::*;
use vstd::slice::slice_subrange;

verus! {

/// What each of `fields` reads as, in order: the `i32` that the field
/// writes once trimmed, or `None` where it writes none.
pub open spec fn readings(fields: Seq<Seq<char>>) -> Seq<Option<i32>> {
    fields.map_values(|field: Seq<char>| i32_of(trim(field)))
}

/// The rectangle that a coordinate string writes. The string must have
/// exactly four comma-separated fields, and each of them, trimmed, must be
/// an `i32`; they are then `x1, y1, x2, y2` in that order. Any other string
/// writes no rectangle.
pub open spec fn coords_rect(s: Seq<char>) -> Option<Rect> {
    let read = readings(split(s, ','));
    if read.len() == 4 && read[0] is Some && read[1] is Some && read[2] is Some && read[3] is Some {
        Some(Rect { x1: read[0]->0, y1: read[1]->0, x2: read[2]->0, y2: read[3]->0 })
    } else {
        None
    }
}

/// Parses a coordinate string into a `Rect`. The string is cut at its
/// commas; there must be exactly four fields, and each must be an integer.
pub fn parse_coords(coords_str: &str) -> (r: Option<Rect>)
    ensures
        r == coords_rect(coords_str@),
{
    let chars = chars_of(coords_str);
    let n: usize = chars.len();
    let mut read: Vec<Option<i32>> = Vec::new();
    let mut start: usize = 0;
    let mut i: usize = 0;
    let ghost mut done: Seq<Seq<char>> = Seq::empty();
    assert(chars@.take(0) =~= Seq::<char>::empty());
    while i < n
        invariant
            n == chars@.len(),
            start <= i <= n,
            split(chars@.take(i as int), ',') == done.push(chars@.subrange(start as int, i as int)),
            read@ == readings(done),
        decreases n - i,
    {
        proof {
            assert(chars@.take(i + 1).drop_last() =~= chars@.take(i as int));
            assert(chars@.subrange(start as int, i as int).push(chars@[i as int]) =~= chars@.subrange(
                start as int,
                i + 1,
            ));
        }
        if chars[i] == ',' {
            let field = trim_chars(slice_subrange(chars.as_slice(), start, i));
            read.push(parse_i32(field));
            proof {
                let field = chars@.subrange(start as int, i as int);
                assert(done.push(field).drop_last() =~= done);
                assert(readings(done).push(i32_of(trim(field))) =~= readings(done.push(field)));
                done = done.push(field);
                assert(chars@.subrange(i + 1, i + 1) =~= Seq::<char>::empty());
            }
            start = i + 1;
        }
        i += 1;
    }
    let field = trim_chars(slice_subrange(chars.as_slice(), start, n));
    read.push(parse_i32(field));
    proof {
        let field = chars@.subrange(start as int, n as int);
        assert(chars@.take(n as int) =~= chars@);
        assert(readings(done).push(i32_of(trim(field))) =~= readings(done.push(field)));
    }
    if read.len() != 4 {
        return None;
    }
    match (read[0], read[1], read[2], read[3]) {
        (Some(x1), Some(y1), Some(x2), Some(y2)) => Some(Rect { x1, y1, x2, y2 }),
        _ => None,
    }
}

/// Whether `value` is no further than `tolerance` from `expected`.
pub open spec fn within(value: i32, expected: i32, tolerance: u32) -> bool {
    abs(value - expected) <= tolerance
}

/// Where the crossword is expected on a page, and how far each bound of a
/// region may be off.
#[derive(Debug, Clone, Copy, PartialEq, Eq, Structural)]
pub struct Target {
    pub rect: Rect,
    pub tolerance_x1: u32,
    pub tolerance_y1: u32,
    pub tolerance_x2: u32,
    pub tolerance_y2: u32,
}

impl Target {
    /// The target of the archive's scans: the rectangle (0, 1625, 1000, 2775),
    /// with 5 pixels of play on the left edge, 10 on the right, and 50 on top
    /// and bottom.
    pub open spec fn spec_reference() -> Target {
        Target {
            rect: Rect { x1: 0, y1: 1625, x2: 1000, y2: 2775 },
            tolerance_x1: 5,
            tolerance_y1: 50,
            tolerance_x2: 10,
            tolerance_y2: 50,
        }
    }

    /// The target of the archive's scans.
    #[verifier::when_used_as_spec(spec_reference)]
    pub fn reference() -> (t: Target)
        ensures
            t == Target::spec_reference(),
    {
        Target {
            rect: Rect { x1: 0, y1: 1625, x2: 1000, y2: 2775 },
            tolerance_x1: 5,
            tolerance_y1: 50,
            tolerance_x2: 10,
            tolerance_y2: 50,
        }
    }

    /// Whether each bound of `rect` is within its tolerance of the target's.
    pub open spec fn accepts(self, rect: Rect) -> bool {
        &&& within(rect.x1, self.rect.x1, self.tolerance_x1)
        &&& within(rect.y1, self.rect.y1, self.tolerance_y1)
        &&& within(rect.x2, self.rect.x2, self.tolerance_x2)
        &&& within(rect.y2, self.rect.y2, self.tolerance_y2)
    }

    /// Tests a rectangle against the target.
    pub fn matches(&self, rect: &Rect) -> (b: bool)
        ensures
            b == self.accepts(*rect),
    {
        close(rect.x1, self.rect.x1, self.tolerance_x1) && close(
            rect.y1,
            self.rect.y1,
            self.tolerance_y1,
        ) && close(rect.x2, self.rect.x2, self.tolerance_x2) && close(
            rect.y2,
            self.rect.y2,
            self.tolerance_y2,
        )
    }
}

/// Tests one bound against its tolerance, without overflow on any input.
fn close(value: i32, expected: i32, tolerance: u32) -> (b: bool)
    ensures
        b == within(value, expected, tolerance),
{
    let off: i64 = value as i64 - expected as i64;
    let tolerance: i64 = tolerance as i64;
    -tolerance <= off && off <= tolerance
}

/// One clickable region of an image map, as its markup gives it: the
/// coordinate text and the link, either of which may be missing.
#[derive(Debug, Clone, PartialEq, Eq)]
pub struct Region {
    pub coords: Option<String>,
    pub href: Option<String>,
}

/// What a `Region` holds, as text.
pub struct RegionView {
    pub coords: Option<Seq<char>>,
    pub href: Option<Seq<char>>,
}

/// The characters of an optional string.
pub open spec fn opt_chars(s: Option<String>) -> Option<Seq<char>> {
    match s {
        Some(s) => Some(s@),
        None => None,
    }
}

impl View for Region {
    type V = RegionView;

    open spec fn view(&self) -> RegionView {
        RegionView { coords: opt_chars(self.coords), href: opt_chars(self.href) }
    }
}

/// The views of `regions`, in order.
pub open spec fn region_views(regions: Seq<Region>) -> Seq<RegionView> {
    regions.map_values(|r: Region| r@)
}

/// The link of `region`, if it is the one searched for: its coordinates
/// write a rectangle that `target` accepts, and it has a link.
pub open spec fn region_link(region: RegionView, target: Target) -> Option<Seq<char>> {
    match region.coords {
        Some(coords) => match coords_rect(coords) {
            Some(rect) => if target.accepts(rect) {
                region.href
            } else {
                None
            },
            None => None,
        },
        None => None,
    }
}

/// The link of the first of `regions` that has one by `region_link`.
pub open spec fn first_link(regions: Seq<RegionView>, target: Target) -> Option<Seq<char>>
    decreases regions.len(),
{
    if regions.len() == 0 {
        None
    } else {
        match region_link(regions.first(), target) {
            Some(link) => Some(link),
            None => first_link(regions.drop_first(), target),
        }
    }
}

/// Goes through `regions` in order and returns the link of the first whose
/// rectangle `target` accepts. A region without coordinates, with
/// coordinates that write no rectangle, or without a link is passed over.
pub fn find_target(regions: &Vec<Region>, target: &Target) -> (r: Option<String>)
    ensures
        opt_chars(r) == first_link(region_views(regions@), *target),
{
    let ghost views = region_views(regions@);
    let mut i: usize = 0;
    assert(views.skip(0) =~= views);
    while i < regions.len()
        invariant
            i <= regions.len(),
            views == region_views(regions@),
            first_link(views, *target) == first_link(views.skip(i as int), *target),
        decreases regions.len() - i,
    {
        let region = &regions[i];
        proof {
            assert(views.skip(i as int).drop_first() =~= views.skip(i + 1));
        }
        if let Some(coords) = &region.coords {
            if let Some(rect) = parse_coords(coords.as_str()) {
                if target.matches(&rect) {
                    if let Some(href) = &region.href {
                        return Some(href.clone());
                    }
                }
            }
        }
        i += 1;
    }
    None
}

/// The regions that rows of coordinate text and link stand for.
pub open spec fn rows_regions(rows: Seq<Seq<Option<Seq<char>>>>) -> Seq<RegionView> {
    rows.map_values(|row: Seq<Option<Seq<char>>>| RegionView { coords: row[0], href: row[1] })
}

/// The regions of an image map: its `area` elements in the order in which
/// `scraper` hands them out, each with its `coords` and `href` attributes.
pub open spec fn markup_regions(html: Seq<char>) -> Seq<RegionView> {
    match selected_attrs(html, "area"@, seq!["coords"@, "href"@]) {
        Some(rows) => rows_regions(rows),
        None => Seq::<RegionView>::empty(),
    }
}

/// The link that the reference target picks from an image map.
pub open spec fn target_link(html: Seq<char>) -> Option<Seq<char>> {
    first_link(markup_regions(html), Target::reference())
}

/// Turns rows of two entries into regions.
fn rows_to_regions(rows: &Vec<Vec<Option<String>>>) -> (regions: Vec<Region>)
    requires
        forall|i: int| 0 <= i < rows.len() ==> (#[trigger] rows[i]).len() == 2,
    ensures
        region_views(regions@) == rows_regions(rows_chars(*rows)),
{
    let mut regions: Vec<Region> = Vec::new();
    let mut i: usize = 0;
    while i < rows.len()
        invariant
            i <= rows.len(),
            forall|k: int| 0 <= k < rows.len() ==> (#[trigger] rows[k]).len() == 2,
            regions.len() == i,
            forall|k: int|
                0 <= k < i ==> (#[trigger] regions[k])@ == rows_regions(rows_chars(*rows))[k],
        decreases rows.len() - i,
    {
        let row = &rows[i];
        let coords = match &row[0] {
            Some(s) => Some(s.clone()),
            None => None,
        };
        let href = match &row[1] {
            Some(s) => Some(s.clone()),
            None => None,
        };
        regions.push(Region { coords, href });
        i += 1;
    }
    regions
}

/// Reads the regions of an image map out of its markup, which must be
/// readable.
pub fn regions(html: &str) -> (r: Vec<Region>)
    requires
        is_readable(html@),
    ensures
        region_views(r@) == markup_regions(html@),
{
    let mut names: Vec<&str> = Vec::new();
    names.push("coords");
    names.push("href");
    assert(names_chars(names@) =~= seq!["coords"@, "href"@]);
    match select_attrs(html, "area", &names) {
        Some(rows) => rows_to_regions(&rows),
        None => {
            let r: Vec<Region> = Vec::new();
            r
        },
    }
}

/// Gets the link of the crossword from the markup of an image map: that of
/// the first region which the reference target accepts and which has a link.
/// `None` where there is no such region. The markup must be readable.
pub fn get_target_rect(html: &str) -> (r: Option<String>)
    requires
        is_readable(html@),
    ensures
        opt_chars(r) == target_link(html@),
{
    let regions = regions(html);
    let target = Target::reference();
    find_target(&regions, &target)
}

/// Four fields without a comma, each of which is an `i32` once trimmed,
/// joined by commas, write the rectangle of those four numbers in that order.
pub proof fn lemma_four_numbers_make_a_rect(
    f1: Seq<char>,
    f2: Seq<char>,
    f3: Seq<char>,
    f4: Seq<char>,
)
    requires
        free_of(f1, ','),
        free_of(f2, ','),
        free_of(f3, ','),
        free_of(f4, ','),
        i32_of(trim(f1)) is Some,
        i32_of(trim(f2)) is Some,
        i32_of(trim(f3)) is Some,
        i32_of(trim(f4)) is Some,
    ensures
        coords_rect(f1 + seq![','] + f2 + seq![','] + f3 + seq![','] + f4) == Some(
            Rect {
                x1: i32_of(trim(f1))->0,
                y1: i32_of(trim(f2))->0,
                x2: i32_of(trim(f3))->0,
                y2: i32_of(trim(f4))->0,
            },
        ),
{
    let s = f1 + seq![','] + f2 + seq![','] + f3 + seq![','] + f4;
    lemma_split_single(f1, ',');
    lemma_split_single(f2, ',');
    lemma_split_single(f3, ',');
    lemma_split_single(f4, ',');
    lemma_split_concat(f1, f2, ',');
    lemma_split_concat(f1 + seq![','] + f2, f3, ',');
    lemma_split_concat(f1 + seq![','] + f2 + seq![','] + f3, f4, ',');
    assert(split(s, ',') =~= seq![f1, f2, f3, f4]);
}

/// A coordinate string writes a rectangle exactly when it has four fields
/// and each of them, trimmed, is an `i32`; the rectangle then holds the four
/// numbers in the order of the fields.
pub proof fn lemma_rect_iff_four_number_fields(s: Seq<char>)
    ensures
        coords_rect(s) is Some <==> split(s, ',').len() == 4 && forall|i: int|
            0 <= i < 4 ==> i32_of(trim(#[trigger] split(s, ',')[i])) is Some,
        coords_rect(s) matches Some(r) ==> {
            &&& Some(r.x1) == i32_of(trim(split(s, ',')[0]))
            &&& Some(r.y1) == i32_of(trim(split(s, ',')[1]))
            &&& Some(r.x2) == i32_of(trim(split(s, ',')[2]))
            &&& Some(r.y2) == i32_of(trim(split(s, ',')[3]))
        },
{
    let fields = split(s, ',');
    if fields.len() == 4 {
        assert(readings(fields)[0] == i32_of(trim(fields[0])));
        assert(readings(fields)[1] == i32_of(trim(fields[1])));
        assert(readings(fields)[2] == i32_of(trim(fields[2])));
        assert(readings(fields)[3] == i32_of(trim(fields[3])));
    }
}

/// Any other shape writes no rectangle: a string of fewer or of more than
/// four fields, a string with a field that is no number, and the empty
/// string, which is a single empty field.
pub proof fn lemma_other_shapes_make_no_rect(s: Seq<char>)
    ensures
        split(s, ',').len() != 4 ==> coords_rect(s) is None,
        (exists|i: int|
            0 <= i < split(s, ',').len() && i32_of(trim(#[trigger] split(s, ',')[i])) is None)
            ==> coords_rect(s) is None,
        s.len() == 0 ==> coords_rect(s) is None,
{
    lemma_rect_iff_four_number_fields(s);
}

/// A rectangle equal to the target's own is accepted, whatever the
/// tolerances.
pub proof fn lemma_target_accepts_its_rect(target: Target)
    ensures
        target.accepts(target.rect),
{
}

/// A rectangle is accepted exactly when each of its four bounds is off by
/// no more than that bound's tolerance.
pub proof fn lemma_accepts_iff_all_within(target: Target, rect: Rect)
    ensures
        target.accepts(rect) <==> {
            &&& abs(rect.x1 - target.rect.x1) <= target.tolerance_x1
            &&& abs(rect.y1 - target.rect.y1) <= target.tolerance_y1
            &&& abs(rect.x2 - target.rect.x2) <= target.tolerance_x2
            &&& abs(rect.y2 - target.rect.y2) <= target.tolerance_y2
        },
{
}

/// One bound out of tolerance is enough to reject a rectangle, however
/// exact the other three are.
pub proof fn lemma_one_bound_off_rejects(target: Target, rect: Rect)
    requires
        !within(rect.x1, target.rect.x1, target.tolerance_x1) || !within(
            rect.y1,
            target.rect.y1,
            target.tolerance_y1,
        ) || !within(rect.x2, target.rect.x2, target.tolerance_x2) || !within(
            rect.y2,
            target.rect.y2,
            target.tolerance_y2,
        ),
    ensures
        !target.accepts(rect),
{
}

/// First match wins: where region `i` has a link by `region_link` and none
/// before it has, the search returns the link of region `i`, whatever comes
/// after it.
pub proof fn lemma_first_match_wins(regions: Seq<RegionView>, target: Target, i: int)
    requires
        0 <= i < regions.len(),
        region_link(regions[i], target) is Some,
        forall|j: int| 0 <= j < i ==> region_link(#[trigger] regions[j], target) is None,
    ensures
        first_link(regions, target) == region_link(regions[i], target),
    decreases i,
{
    if i > 0 {
        lemma_first_match_wins(regions.drop_first(), target, i - 1);
    }
}

/// Where exactly one region has a link by `region_link`, the search returns
/// that region's link, wherever it stands among the others.
pub proof fn lemma_only_match_is_found(regions: Seq<RegionView>, target: Target, i: int)
    requires
        0 <= i < regions.len(),
        region_link(regions[i], target) is Some,
        forall|j: int|
            0 <= j < regions.len() && j != i ==> region_link(#[trigger] regions[j], target) is None,
    ensures
        first_link(regions, target) == region_link(regions[i], target),
{
    lemma_first_match_wins(regions, target, i);
}

/// Where no region has a link by `region_link`, and so where there is no
/// region at all, the search finds nothing.
pub proof fn lemma_no_match_no_link(regions: Seq<RegionView>, target: Target)
    requires
        forall|j: int| 0 <= j < regions.len() ==> region_link(#[trigger] regions[j], target) is None,
    ensures
        first_link(regions, target) is None,
    decreases regions.len(),
{
    if regions.len() > 0 {
        lemma_no_match_no_link(regions.drop_first(), target);
    }
}

/// Markup in which there is no region has no link.
pub proof fn lemma_no_regions_no_link(html: Seq<char>)
    requires
        markup_regions(html).len() == 0,
    ensures
        target_link(html) is None,
{
}

/// Whether the coordinates of `region` are missing or write no rectangle.
pub open spec fn unreadable(region: RegionView) -> bool {
    match region.coords {
        Some(coords) => coords_rect(coords) is None,
        None => true,
    }
}

/// A region whose coordinates cannot be read changes nothing: the search
/// gives what it gives with that region taken out.
pub proof fn lemma_unreadable_region_is_skipped(regions: Seq<RegionView>, target: Target, k: int)
    requires
        0 <= k < regions.len(),
        unreadable(regions[k]),
    ensures
        first_link(regions, target) == first_link(regions.remove(k), target),
    decreases k,
{
    if k > 0 {
        let rest = regions.drop_first();
        lemma_unreadable_region_is_skipped(rest, target, k - 1);
        assert(regions.remove(k).drop_first() =~= rest.remove(k - 1));
    }
}

} // verus!
