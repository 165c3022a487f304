//! Reading the code and data sizes from a binary image's section table.
use vstd::prelude::*;

use crate::error::Error;

verus! {

/// One named, sized section of a binary image.
pub struct SectionInfo {
    pub name: String,
    pub size: u64,
}

impl View for SectionInfo {
    type V = (Seq<char>, u64);

    open spec fn view(&self) -> (Seq<char>, u64) {
        (self.name@, self.size)
    }
}

impl DeepView for SectionInfo {
    type V = (Seq<char>, u64);

    open spec fn deep_view(&self) -> (Seq<char>, u64) {
        self.view()
    }
}

/// A pair of aggregate byte counts read from a section table.
#[derive(Clone, Copy, Debug, PartialEq, Eq, Structural)]
pub struct SectionSizes {
    /// The sum of the sizes of the code-bearing sections present.
    pub code: u64,
    /// The sum of the sizes of the data-bearing sections present.
    pub data: u64,
}

/// The sections whose sizes make up the program (code) size.
pub open spec fn spec_program_sections() -> Seq<Seq<char>> {
    seq![".vector_table"@, ".text"@, ".rodata"@]
}

/// The sections whose sizes make up the data size.
pub open spec fn spec_data_sections() -> Seq<Seq<char>> {
    seq![".bss"@, ".data"@]
}

/// The declared size of the first section of `secs` named `name`, if any.
pub open spec fn spec_section_size(secs: Seq<(Seq<char>, u64)>, name: Seq<char>) -> Option<u64>
    decreases secs.len(),
{
    if secs.len() == 0 {
        None
    } else if secs[0].0 == name {
        Some(secs[0].1)
    } else {
        spec_section_size(secs.drop_first(), name)
    }
}

/// What the lookup of one section name contributes to a category sum:
/// its declared size when present, zero otherwise.
pub open spec fn spec_contribution(secs: Seq<(Seq<char>, u64)>, name: Seq<char>) -> int {
    match spec_section_size(secs, name) {
        Some(s) => s as int,
        None => 0,
    }
}

/// The mathematical sum of what each listed name contributes.
pub open spec fn spec_category_sum(secs: Seq<(Seq<char>, u64)>, names: Seq<Seq<char>>) -> int
    decreases names.len(),
{
    if names.len() == 0 {
        0
    } else {
        spec_contribution(secs, names[0]) + spec_category_sum(secs, names.drop_first())
    }
}

/// A non-negative sum clipped to the range of a 64-bit byte count.
pub open spec fn spec_clip(n: int) -> u64
    recommends
        n >= 0,
{
    if n <= u64::MAX {
        n as u64
    } else {
        u64::MAX
    }
}

/// Both aggregate byte counts that a section table yields.
pub open spec fn spec_section_sizes(secs: Seq<(Seq<char>, u64)>) -> SectionSizes {
    SectionSizes {
        code: spec_clip(spec_category_sum(secs, spec_program_sections())),
        data: spec_clip(spec_category_sum(secs, spec_data_sections())),
    }
}

/// All sections that contain program code, in lookup order.
pub fn program_sections() -> (r: Vec<String>)
    ensures
        r.deep_view() == spec_program_sections(),
{
    let mut r: Vec<String> = Vec::new();
    r.push(String::from_str(".vector_table"));
    r.push(String::from_str(".text"));
    r.push(String::from_str(".rodata"));
    proof {
        assert(r.deep_view() =~= spec_program_sections());
    }
    r
}

/// All sections that contain program data, in lookup order.
pub fn data_sections() -> (r: Vec<String>)
    ensures
        r.deep_view() == spec_data_sections(),
{
    let mut r: Vec<String> = Vec::new();
    r.push(String::from_str(".bss"));
    r.push(String::from_str(".data"));
    proof {
        assert(r.deep_view() =~= spec_data_sections());
    }
    r
}

proof fn lemma_section_size_skip(secs: Seq<(Seq<char>, u64)>, name: Seq<char>, i: int)
    requires
        0 <= i <= secs.len(),
        forall|k: int| 0 <= k < i ==> secs[k].0 != name,
    ensures
        spec_section_size(secs, name) == spec_section_size(secs.skip(i), name),
    decreases i,
{
    if i > 0 {
        lemma_section_size_skip(secs.drop_first(), name, i - 1);
        assert(secs.drop_first().skip(i - 1) =~= secs.skip(i));
    } else {
        assert(secs.skip(0) =~= secs);
    }
}

/// The declared size of the first section of `secs` named `name`.
fn lookup_section(secs: &Vec<SectionInfo>, name: &String) -> (r: Option<u64>)
    ensures
        r == spec_section_size(secs.deep_view(), name@),
{
    let mut i: usize = 0;
    while i < secs.len()
        invariant
            i <= secs.len(),
            forall|k: int| 0 <= k < i ==> (#[trigger] secs.deep_view()[k]).0 != name@,
        decreases secs.len() - i,
    {
        if secs[i].name == *name {
            proof {
                lemma_section_size_skip(secs.deep_view(), name@, i as int);
                assert(secs.deep_view().skip(i as int)[0] == secs.deep_view()[i as int]);
            }
            return Some(secs[i].size);
        }
        i = i + 1;
    }
    proof {
        lemma_section_size_skip(secs.deep_view(), name@, secs.deep_view().len() as int);
        assert(secs.deep_view().skip(secs.deep_view().len() as int).len() == 0);
    }
    None
}

/// Every contribution is a section size or zero, so a category sum is never
/// negative.
pub proof fn lemma_category_sum_nonneg(secs: Seq<(Seq<char>, u64)>, names: Seq<Seq<char>>)
    ensures
        spec_category_sum(secs, names) >= 0,
    decreases names.len(),
{
    if names.len() > 0 {
        lemma_category_sum_nonneg(secs, names.drop_first());
    }
}

/// Sum the sizes of the listed sections present in `secs`, clipped to the
/// range of a 64-bit byte count.
pub fn sum_sections(secs: &Vec<SectionInfo>, names: &Vec<String>) -> (r: u64)
    ensures
        r == spec_clip(spec_category_sum(secs.deep_view(), names.deep_view())),
{
    let ghost gsecs = secs.deep_view();
    let ghost gnames = names.deep_view();
    let mut acc: u64 = 0;
    let ghost mut partial: int = 0;
    let mut i: usize = 0;
    proof {
        assert(gnames.skip(0) =~= gnames);
    }
    while i < names.len()
        invariant
            gsecs == secs.deep_view(),
            gnames == names.deep_view(),
            i <= gnames.len(),
            partial >= 0,
            acc == spec_clip(partial),
            spec_category_sum(gsecs, gnames) == partial + spec_category_sum(
                gsecs,
                gnames.skip(i as int),
            ),
        decreases names.len() - i,
    {
        let c: u64 = match lookup_section(secs, &names[i]) {
            Some(s) => s,
            None => 0,
        };
        proof {
            assert(gnames.skip(i as int)[0] == gnames[i as int]);
            assert(gnames.skip(i as int).drop_first() =~= gnames.skip(i as int + 1));
            assert(spec_category_sum(gsecs, gnames.skip(i as int)) == spec_contribution(
                gsecs,
                gnames[i as int],
            ) + spec_category_sum(gsecs, gnames.skip(i as int + 1)));
            assert(c as int == spec_contribution(gsecs, gnames[i as int]));
        }
        if acc <= u64::MAX - c {
            acc = acc + c;
        } else {
            acc = u64::MAX;
        }
        proof {
            partial = partial + c;
        }
        i = i + 1;
    }
    proof {
        assert(gnames.skip(gnames.len() as int).len() == 0);
    }
    acc
}

/// Compute both aggregate byte counts of a parsed section table.
///
/// The code count sums exactly the code-bearing sections present, the data
/// count exactly the data-bearing ones; sections outside the two fixed lists
/// never contribute.
pub fn section_sizes(secs: &Vec<SectionInfo>) -> (r: SectionSizes)
    ensures
        r == spec_section_sizes(secs.deep_view()),
{
    let code = sum_sections(secs, &program_sections());
    let data = sum_sections(secs, &data_sections());
    SectionSizes { code, data }
}

/// The named section table that the byte image declares: for each section,
/// its name and declared 64-bit size, in table order; `None` when the bytes
/// do not parse as a section-table image.  A function of the bytes alone.
pub uninterp spec fn elf_sections(data: Seq<u8>) -> Option<Seq<(Seq<char>, u64)>>;

/// Relies on `elf::ElfBytes::minimal_parse`, `ElfBytes::section_headers_with_strtab`
/// and `StringTable::get` of the `elf` crate: together they parse the
/// image's section header table and resolve each section's name, and their
/// result is determined by the bytes alone.
#[verifier::external_body]
fn parse_section_table(data: &[u8]) -> (r: Result<Vec<SectionInfo>, elf::ParseError>)
    ensures
        r is Ok <==> elf_sections(data@) is Some,
        r matches Ok(v) ==> Some(v.deep_view()) == elf_sections(data@),
{
    let file = elf::ElfBytes::<elf::endian::AnyEndian>::minimal_parse(data)?;
    let (shdrs, strtab) = file.section_headers_with_strtab()?;
    let mut out: Vec<SectionInfo> = Vec::new();
    if let (Some(shdrs), Some(strtab)) = (shdrs, strtab) {
        for i in 0..shdrs.len() {
            let shdr = shdrs.get(i)?;
            let name = strtab.get(shdr.sh_name as usize)?;
            out.push(SectionInfo { name: name.to_string(), size: shdr.sh_size });
        }
    }
    Ok(out)
}

/// Read the code and data size from the bytes of a binary image.
///
/// The sizes of the sections listed by [`program_sections`] and
/// [`data_sections`] are added up and returned; sections not present
/// contribute zero.  Bytes that do not parse as a section-table image are
/// rejected as an invalid binary.
pub fn read_size_from(data: &[u8]) -> (r: Result<SectionSizes, Error>)
    ensures
        match elf_sections(data@) {
            Some(secs) => r == Ok::<SectionSizes, Error>(spec_section_sizes(secs)),
            None => r == Err::<SectionSizes, Error>(Error::InvalidBinary),
        },
{
    match parse_section_table(data) {
        Ok(secs) => Ok(section_sizes(&secs)),
        Err(e) => Err(Error::from(e)),
    }
}

proof fn lemma_section_size_push_other(
    secs: Seq<(Seq<char>, u64)>,
    extra: (Seq<char>, u64),
    name: Seq<char>,
)
    requires
        extra.0 != name,
    ensures
        spec_section_size(secs.push(extra), name) == spec_section_size(secs, name),
    decreases secs.len(),
{
    if secs.len() == 0 {
        assert(secs.push(extra)[0] == extra);
        assert(secs.push(extra).drop_first() =~= Seq::<(Seq<char>, u64)>::empty());
    } else {
        assert(secs.push(extra)[0] == secs[0]);
        assert(secs.push(extra).drop_first() =~= secs.drop_first().push(extra));
        lemma_section_size_push_other(secs.drop_first(), extra, name);
    }
}

/// Sections outside the summed name list never contribute: extending a
/// section table with such a section keeps the category sum unchanged,
/// whatever that section's size.
pub proof fn lemma_unlisted_sections_ignored(
    secs: Seq<(Seq<char>, u64)>,
    extra: (Seq<char>, u64),
    names: Seq<Seq<char>>,
)
    requires
        !names.contains(extra.0),
    ensures
        spec_category_sum(secs.push(extra), names) == spec_category_sum(secs, names),
    decreases names.len(),
{
    if names.len() > 0 {
        assert(names[0] != extra.0);
        lemma_section_size_push_other(secs, extra, names[0]);
        assert forall|k: int| 0 <= k < names.drop_first().len() implies names.drop_first()[k]
            != extra.0 by {
            assert(names.drop_first()[k] == names[k + 1]);
        }
        assert(!names.drop_first().contains(extra.0));
        lemma_unlisted_sections_ignored(secs, extra, names.drop_first());
    }
}

/// When none of the listed sections is present, the category sum is zero.
pub proof fn lemma_absent_sections_zero(secs: Seq<(Seq<char>, u64)>, names: Seq<Seq<char>>)
    requires
        forall|k: int| 0 <= k < names.len() ==> spec_section_size(secs, #[trigger] names[k])
            is None,
    ensures
        spec_category_sum(secs, names) == 0,
    decreases names.len(),
{
    if names.len() > 0 {
        assert forall|k: int| 0 <= k < names.drop_first().len() implies spec_section_size(
            secs,
            #[trigger] names.drop_first()[k],
        ) is None by {
            assert(names.drop_first()[k] == names[k + 1]);
        }
        lemma_absent_sections_zero(secs, names.drop_first());
    }
}

} // verus!
