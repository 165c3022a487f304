//! Parsing the declarative memory-layout description into region capacities.
use vstd::prelude::*;
use vstd::string::StrSliceExecFns;

verus! {

/// One named memory region with its declared length in bytes.
pub struct MemoryRegion {
    pub name: String,
    pub length: u64,
}

impl View for MemoryRegion {
    type V = (Seq<char>, u64);

    open spec fn view(&self) -> (Seq<char>, u64) {
        (self.name@, self.length)
    }
}

impl DeepView for MemoryRegion {
    type V = (Seq<char>, u64);

    open spec fn deep_view(&self) -> (Seq<char>, u64) {
        self.view()
    }
}

/// One top-level item of a layout description: a memory directive carrying
/// its regions, or any other kind of directive.
pub enum LayoutItem {
    Memory(Vec<MemoryRegion>),
    Other,
}

impl View for LayoutItem {
    type V = Option<Seq<(Seq<char>, u64)>>;

    open spec fn view(&self) -> Option<Seq<(Seq<char>, u64)>> {
        match self {
            LayoutItem::Memory(regions) => Some(regions.deep_view()),
            LayoutItem::Other => None,
        }
    }
}

impl DeepView for LayoutItem {
    type V = Option<Seq<(Seq<char>, u64)>>;

    open spec fn deep_view(&self) -> Option<Seq<(Seq<char>, u64)>> {
        self.view()
    }
}

/// The ASCII-lower-case fold of one character's code point.
pub open spec fn spec_fold_code(u: u32) -> u32 {
    if 65 <= u && u <= 90 {
        (u + 32) as u32
    } else {
        u
    }
}

/// Whether two names are equal when ASCII letter case is ignored.
pub open spec fn spec_name_matches(name: Seq<char>, target: Seq<char>) -> bool {
    name.len() == target.len() && forall|i: int|
        0 <= i < name.len() ==> spec_fold_code(name[i] as u32) == spec_fold_code(
            target[i] as u32,
        )
}

/// Whether `name` and `target` hold the same characters once ASCII letter
/// case is ignored.
pub fn eq_ignore_case(name: &str, target: &str) -> (r: bool)
    ensures
        r == spec_name_matches(name@, target@),
{
    let n = name.unicode_len();
    if n != target.unicode_len() {
        return false;
    }
    let mut i: usize = 0;
    while i < n
        invariant
            n == name@.len(),
            n == target@.len(),
            i <= n,
            forall|k: int|
                0 <= k < i ==> spec_fold_code(#[trigger] (name@[k] as u32)) == spec_fold_code(
                    target@[k] as u32,
                ),
        decreases n - i,
    {
        let cu = name.get_char(i) as u32;
        let tu = target.get_char(i) as u32;
        let cf = if 65 <= cu && cu <= 90 {
            cu + 32
        } else {
            cu
        };
        let tf = if 65 <= tu && tu <= 90 {
            tu + 32
        } else {
            tu
        };
        if cf != tf {
            assert(spec_fold_code(name@[i as int] as u32) != spec_fold_code(
                target@[i as int] as u32,
            ));
            return false;
        }
        i = i + 1;
    }
    true
}

/// The sum of the lengths of the regions whose name matches `target` when
/// ASCII case is ignored; every matching region contributes.
pub open spec fn spec_region_sum(regions: Seq<(Seq<char>, u64)>, target: Seq<char>) -> int
    decreases regions.len(),
{
    if regions.len() == 0 {
        0
    } else {
        (if spec_name_matches(regions[0].0, target) {
            regions[0].1 as int
        } else {
            0
        }) + spec_region_sum(regions.drop_first(), target)
    }
}

/// A sum of region lengths is never negative.
pub proof fn lemma_region_sum_nonneg(regions: Seq<(Seq<char>, u64)>, target: Seq<char>)
    ensures
        spec_region_sum(regions, target) >= 0,
    decreases regions.len(),
{
    if regions.len() > 0 {
        lemma_region_sum_nonneg(regions.drop_first(), target);
    }
}

/// The regions of the first memory directive among `items`, if any.
pub open spec fn spec_first_memory(items: Seq<Option<Seq<(Seq<char>, u64)>>>) -> Option<
    Seq<(Seq<char>, u64)>,
>
    decreases items.len(),
{
    if items.len() == 0 {
        None
    } else if items[0] is Some {
        items[0]
    } else {
        spec_first_memory(items.drop_first())
    }
}

/// The capacities that a region list yields: the summed lengths of the
/// regions named `flash` and of those named `ram`, case ignored.  They are
/// present only when both sums are strictly positive 64-bit byte counts;
/// a zero or out-of-range sum degrades to absent capacities.
pub open spec fn spec_capacities(regions: Seq<(Seq<char>, u64)>) -> Option<(u64, u64)> {
    let code = spec_region_sum(regions, "flash"@);
    let data = spec_region_sum(regions, "ram"@);
    if 0 < code <= u64::MAX && 0 < data <= u64::MAX {
        Some(((code as u64), (data as u64)))
    } else {
        None
    }
}

/// What a whole optional parse outcome yields: the capacities of the first
/// memory directive, when one is present.
pub open spec fn spec_memory_size(
    parsed: Option<Seq<Option<Seq<(Seq<char>, u64)>>>>,
) -> Option<(u64, u64)> {
    match parsed {
        None => None,
        Some(items) => match spec_first_memory(items) {
            None => None,
            Some(regions) => spec_capacities(regions),
        },
    }
}

/// The characters a numeric token of a layout description is made of:
/// digits of every base the format knows, base markers, and the `k`/`m`
/// multiplier suffixes.
pub open spec fn spec_is_num_or_suffix(c: char) -> bool {
    (48 <= c as u32 && c as u32 <= 57)  // '0' ..= '9'
     || (65 <= c as u32 && c as u32 <= 70)  // 'A' ..= 'F'
     || (97 <= c as u32 && c as u32 <= 102)  // 'a' ..= 'f'
     || c == 'h' || c == 'H' || c == 'o' || c == 'O' || c == 'k' || c == 'K' || c == 'm' || c
        == 'M'
}

/// The multiplier suffixes that scale a numeric token by 1024 or 1024².
pub open spec fn spec_is_mul_suffix(c: char) -> bool {
    c == 'k' || c == 'K' || c == 'm' || c == 'M'
}

/// The characters of `s` from `i` (inclusive) to `j` (exclusive) are all
/// numeric-token characters.
pub open spec fn spec_all_num(s: Seq<char>, i: int, j: int) -> bool {
    forall|t: int| i <= t < j ==> spec_is_num_or_suffix(#[trigger] s[t])
}

/// A numeric token of `s` that ends in a multiplier suffix and has more
/// than 13 characters before that suffix: `[i, j)` is a run of
/// numeric-token characters, `j` sits at the run's end, and `s[j - 1]` is
/// the suffix.
pub open spec fn spec_long_suffixed_at(s: Seq<char>, i: int, j: int) -> bool {
    &&& 0 <= i
    &&& i + 14 < j <= s.len()
    &&& spec_all_num(s, i, j)
    &&& (j == s.len() || !spec_is_num_or_suffix(s[j]))
    &&& spec_is_mul_suffix(s[j - 1])
}

/// Every multiplier-suffixed numeric token of `s` has at most 13 characters
/// before its suffix.  A decimal or octal prefix of 13 characters is at
/// most 9_999_999_999_999, which still fits a 64-bit length after the
/// 1024² multiplier; the parser relied on below multiplies such suffixed
/// values unchecked, so longer tokens are kept away from it.
pub open spec fn spec_layout_numbers_safe(s: Seq<char>) -> bool {
    forall|i: int, j: int| !spec_long_suffixed_at(s, i, j)
}

fn is_num_or_suffix_char(c: char) -> (r: bool)
    ensures
        r == spec_is_num_or_suffix(c),
{
    let u = c as u32;
    (48 <= u && u <= 57) || (65 <= u && u <= 70) || (97 <= u && u <= 102) || c == 'h' || c == 'H'
        || c == 'o' || c == 'O' || c == 'k' || c == 'K' || c == 'm' || c == 'M'
}

fn is_mul_suffix_char(c: char) -> (r: bool)
    ensures
        r == spec_is_mul_suffix(c),
{
    c == 'k' || c == 'K' || c == 'm' || c == 'M'
}

/// Whether every multiplier-suffixed numeric token of `s` is short enough
/// for its multiplier to be applied within a 64-bit length.
pub fn layout_numbers_safe(s: &str) -> (r: bool)
    ensures
        r == spec_layout_numbers_safe(s@),
{
    let n = s.unicode_len();
    let mut run: usize = 0;
    let mut i: usize = 0;
    while i < n
        invariant
            n == s@.len(),
            i <= n,
            run <= i,
            spec_all_num(s@, i - run, i as int),
            i - run == 0 || !spec_is_num_or_suffix(s@[i - run - 1]),
            forall|ii: int, jj: int| jj < i ==> !spec_long_suffixed_at(s@, ii, jj),
        decreases n - i,
    {
        let c = s.get_char(i);
        if is_num_or_suffix_char(c) {
            proof {
                assert forall|ii: int, jj: int| jj == i implies !spec_long_suffixed_at(
                    s@,
                    ii,
                    jj,
                ) by {
                    assert(spec_is_num_or_suffix(s@[i as int]));
                }
            }
            run = run + 1;
        } else {
            if run >= 15 && is_mul_suffix_char(s.get_char(i - 1)) {
                assert(spec_long_suffixed_at(s@, i - run, i as int));
                return false;
            }
            proof {
                assert forall|ii: int, jj: int| jj == i implies !spec_long_suffixed_at(
                    s@,
                    ii,
                    jj,
                ) by {
                    if spec_long_suffixed_at(s@, ii, jj) {
                        assert(ii >= i - run) by {
                            if ii < i - run {
                                assert(spec_is_num_or_suffix(s@[i - run - 1]));
                            }
                        }
                    }
                }
            }
            run = 0;
        }
        i = i + 1;
    }
    if run >= 15 && is_mul_suffix_char(s.get_char(n - 1)) {
        assert(spec_long_suffixed_at(s@, n - run, n as int));
        return false;
    }
    proof {
        assert forall|ii: int, jj: int| !spec_long_suffixed_at(s@, ii, jj) by {
            if spec_long_suffixed_at(s@, ii, jj) {
                if jj == n {
                    assert(ii >= n - run) by {
                        if ii < n - run {
                            assert(spec_is_num_or_suffix(s@[n - run - 1]));
                        }
                    }
                }
            }
        }
    }
    true
}

/// The parse of a layout description: for each top-level item, the named
/// regions of a memory directive together with their lengths, or `None` for
/// an item of any other kind; `None` overall when the text does not parse.
/// A function of the text alone.
pub uninterp spec fn layout_items(s: Seq<char>) -> Option<Seq<Option<Seq<(Seq<char>, u64)>>>>;

/// Relies on `ldscript_parser::parse`: it parses a linker-script text into
/// its top-level items, deterministically in the text; a `Memory` item
/// carries its named regions, each with a name and a length in bytes.
///
/// The parser multiplies a `k`/`K`/`m`/`M`-suffixed number by its
/// multiplier without an overflow check, so it can panic on a token whose
/// prefix is too large; the precondition admits only texts whose suffixed
/// tokens are short enough ([`spec_layout_numbers_safe`]), which callers
/// establish with [`layout_numbers_safe`] first.
#[verifier::external_body]
pub(crate) fn parse_layout(s: &str) -> (r: Option<Vec<LayoutItem>>)
    requires
        spec_layout_numbers_safe(s@),
    ensures
        r is Some <==> layout_items(s@) is Some,
        r matches Some(v) ==> Some(v.deep_view()) == layout_items(s@),
{
    let items = match ldscript_parser::parse(s) {
        Ok(items) => items,
        Err(_) => return None,
    };
    Some(items.into_iter().map(|item| match item {
        ldscript_parser::RootItem::Memory { regions } => LayoutItem::Memory(
            regions.into_iter().map(|r| MemoryRegion { name: r.name, length: r.length }).collect(),
        ),
        ldscript_parser::RootItem::Statement(_) => LayoutItem::Other,
        ldscript_parser::RootItem::Command(_) => LayoutItem::Other,
        ldscript_parser::RootItem::Sections { .. } => LayoutItem::Other,
    }).collect())
}

proof fn lemma_first_memory_skip(items: Seq<Option<Seq<(Seq<char>, u64)>>>, i: int)
    requires
        0 <= i <= items.len(),
        forall|k: int| 0 <= k < i ==> items[k] is None,
    ensures
        spec_first_memory(items) == spec_first_memory(items.skip(i)),
    decreases i,
{
    if i > 0 {
        lemma_first_memory_skip(items.drop_first(), i - 1);
        assert(items.drop_first().skip(i - 1) =~= items.skip(i));
    } else {
        assert(items.skip(0) =~= items);
    }
}

/// The first memory directive among the parsed items, if any.
pub fn first_memory(items: &Vec<LayoutItem>) -> (r: Option<&Vec<MemoryRegion>>)
    ensures
        match r {
            Some(regions) => spec_first_memory(items.deep_view()) == Some(regions.deep_view()),
            None => spec_first_memory(items.deep_view()) is None,
        },
{
    let mut i: usize = 0;
    while i < items.len()
        invariant
            i <= items.len(),
            forall|k: int| 0 <= k < i ==> (#[trigger] items.deep_view()[k]) is None,
        decreases items.len() - i,
    {
        if let LayoutItem::Memory(regions) = &items[i] {
            proof {
                lemma_first_memory_skip(items.deep_view(), i as int);
                assert(items.deep_view().skip(i as int)[0] == items.deep_view()[i as int]);
            }
            return Some(regions);
        }
        i = i + 1;
    }
    proof {
        lemma_first_memory_skip(items.deep_view(), items.deep_view().len() as int);
        assert(items.deep_view().skip(items.deep_view().len() as int).len() == 0);
    }
    None
}

/// Sum the lengths of the regions matching `target`, case ignored, unless
/// the sum leaves the 64-bit range.
pub fn region_sum(regions: &Vec<MemoryRegion>, target: &str) -> (r: Option<u64>)
    ensures
        r is Some <==> spec_region_sum(regions.deep_view(), target@) <= u64::MAX,
        r matches Some(s) ==> s as int == spec_region_sum(regions.deep_view(), target@),
{
    let ghost gregions = regions.deep_view();
    let ghost gtarget = target@;
    let mut acc: u64 = 0;
    let mut i: usize = 0;
    proof {
        assert(gregions.skip(0) =~= gregions);
    }
    while i < regions.len()
        invariant
            gregions == regions.deep_view(),
            gtarget == target@,
            i <= gregions.len(),
            spec_region_sum(gregions, gtarget) == acc + spec_region_sum(
                gregions.skip(i as int),
                gtarget,
            ),
        decreases regions.len() - i,
    {
        let matches_target = eq_ignore_case(regions[i].name.as_str(), target);
        let c: u64 = if matches_target {
            regions[i].length
        } else {
            0
        };
        proof {
            assert(gregions.skip(i as int)[0] == gregions[i as int]);
            assert(gregions.skip(i as int).drop_first() =~= gregions.skip(i as int + 1));
            assert(spec_region_sum(gregions.skip(i as int), gtarget) == (c as int)
                + spec_region_sum(gregions.skip(i as int + 1), gtarget));
        }
        if acc <= u64::MAX - c {
            acc = acc + c;
        } else {
            proof {
                lemma_region_sum_nonneg(gregions.skip(i as int + 1), gtarget);
            }
            return None;
        }
        i = i + 1;
    }
    proof {
        assert(gregions.skip(gregions.len() as int).len() == 0);
    }
    Some(acc)
}

/// Region-name matching ignores ASCII letter case: two names whose code
/// points fold alike match exactly the same targets.
pub proof fn lemma_matching_case_insensitive(a: Seq<char>, b: Seq<char>, target: Seq<char>)
    requires
        a.len() == b.len(),
        forall|i: int|
            0 <= i < a.len() ==> spec_fold_code(#[trigger] (a[i] as u32)) == spec_fold_code(
                b[i] as u32,
            ),
    ensures
        spec_name_matches(a, target) == spec_name_matches(b, target),
{
}

/// Matching regions are summed, never overridden: the sum over a
/// concatenation is the sum of the sums, so a later duplicate region adds
/// its length to the total.
pub proof fn lemma_region_sum_append(
    rs1: Seq<(Seq<char>, u64)>,
    rs2: Seq<(Seq<char>, u64)>,
    target: Seq<char>,
)
    ensures
        spec_region_sum(rs1 + rs2, target) == spec_region_sum(rs1, target) + spec_region_sum(
            rs2,
            target,
        ),
    decreases rs1.len(),
{
    if rs1.len() == 0 {
        assert(rs1 + rs2 =~= rs2);
    } else {
        assert((rs1 + rs2)[0] == rs1[0]);
        assert((rs1 + rs2).drop_first() =~= rs1.drop_first() + rs2);
        lemma_region_sum_append(rs1.drop_first(), rs2, target);
    }
}

/// A layout that is unparsable, has no memory directive, or yields a zero
/// capacity for either logical region produces no capacity data at all.
pub proof fn lemma_layout_failures_absent(parsed: Option<Seq<Option<Seq<(Seq<char>, u64)>>>>)
    ensures
        parsed is None ==> spec_memory_size(parsed) is None,
        (parsed matches Some(items) && spec_first_memory(items) is None) ==> spec_memory_size(
            parsed,
        ) is None,
        (parsed matches Some(items) && spec_first_memory(items) matches Some(regions) && (
        spec_region_sum(regions, "flash"@) == 0 || spec_region_sum(regions, "ram"@)
            == 0)) ==> spec_memory_size(parsed) is None,
{
}

} // verus!
