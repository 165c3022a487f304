//! Application mode and location of the produced build artifact.
use vstd::prelude::*;

use crate::error::Error;

verus! {

/// The mode of the tool (debug or release).
#[derive(Clone, Copy, Debug, PartialEq, Eq, Structural)]
pub enum Mode {
    Debug,
    Release,
}

/// The output subdirectory that a mode selects.
pub open spec fn spec_mode_dir(m: Mode) -> Seq<char> {
    match m {
        Mode::Debug => "debug"@,
        Mode::Release => "release"@,
    }
}

/// The cross-compilation target triples whose nested output layouts are
/// probed.  Their order here breaks the tie when several such directories
/// exist at once.
pub open spec fn spec_supported_triples() -> Seq<Seq<char>> {
    seq![
        "thumbv6m-none-eabi"@,
        "thumbv7m-none-eabi"@,
        "thumbv7em-none-eabi"@,
        "thumbv7em-none-eabihf"@,
    ]
}

/// The first element of `triples` that occurs in `subdirs`.
pub open spec fn spec_first_present(triples: Seq<Seq<char>>, subdirs: Seq<Seq<char>>) -> Option<
    Seq<char>,
>
    decreases triples.len(),
{
    if triples.len() == 0 {
        None
    } else if subdirs.contains(triples[0]) {
        Some(triples[0])
    } else {
        spec_first_present(triples.drop_first(), subdirs)
    }
}

/// The conventional candidate `target/<mode>/<name>`, as path components.
pub open spec fn spec_native_candidate(m: Mode, name: Seq<char>) -> Seq<Seq<char>> {
    seq!["target"@, spec_mode_dir(m), name]
}

/// The nested candidate `target/<triple>/<mode>/<name>`, as path components.
pub open spec fn spec_nested_candidate(m: Mode, triple: Seq<char>, name: Seq<char>) -> Seq<
    Seq<char>,
> {
    seq!["target"@, triple, spec_mode_dir(m), name]
}

/// Every candidate path for the binary, most preferred first: the
/// conventional layout, then the nested layout of the first supported triple
/// found among the subdirectories of `target`.
pub open spec fn spec_candidates(m: Mode, name: Seq<char>, subdirs: Seq<Seq<char>>) -> Seq<
    Seq<Seq<char>>,
> {
    match spec_first_present(spec_supported_triples(), subdirs) {
        None => seq![spec_native_candidate(m, name)],
        Some(t) => seq![spec_native_candidate(m, name), spec_nested_candidate(m, t, name)],
    }
}

/// The first candidate reported to exist, if any.
pub open spec fn spec_select(cands: Seq<Seq<Seq<char>>>, exists: Seq<bool>) -> Option<
    Seq<Seq<char>>,
>
    decreases cands.len(),
{
    if cands.len() == 0 || exists.len() == 0 {
        None
    } else if exists[0] {
        Some(cands[0])
    } else {
        spec_select(cands.drop_first(), exists.drop_first())
    }
}

/// A resolved path to an executable image, held as path components relative
/// to the project root.
#[derive(Clone, Debug, PartialEq, Eq)]
pub struct ArtifactPath {
    pub components: Vec<String>,
}

impl View for ArtifactPath {
    type V = Seq<Seq<char>>;

    open spec fn view(&self) -> Seq<Seq<char>> {
        self.components.deep_view()
    }
}

impl DeepView for ArtifactPath {
    type V = Seq<Seq<char>>;

    open spec fn deep_view(&self) -> Seq<Seq<char>> {
        self.view()
    }
}

/// The supported cross-compilation targets, in tie-break order.
pub fn supported_cross_platforms() -> (r: Vec<String>)
    ensures
        r.deep_view() == spec_supported_triples(),
{
    let mut r: Vec<String> = Vec::new();
    r.push(String::from_str("thumbv6m-none-eabi"));
    r.push(String::from_str("thumbv7m-none-eabi"));
    r.push(String::from_str("thumbv7em-none-eabi"));
    r.push(String::from_str("thumbv7em-none-eabihf"));
    proof {
        assert(r.deep_view() =~= spec_supported_triples());
    }
    r
}

/// Whether `v` holds a string whose characters equal those of `s`.
fn contains_string(v: &Vec<String>, s: &String) -> (r: bool)
    ensures
        r == v.deep_view().contains(s@),
{
    let mut j: usize = 0;
    while j < v.len()
        invariant
            j <= v.len(),
            forall|k: int| 0 <= k < j ==> v.deep_view()[k] != s@,
        decreases v.len() - j,
    {
        if v[j] == *s {
            assert(v.deep_view()[j as int] == s@);
            return true;
        }
        j = j + 1;
    }
    assert(forall|k: int| 0 <= k < v.deep_view().len() ==> v.deep_view()[k] != s@);
    false
}

proof fn lemma_first_present_skip(triples: Seq<Seq<char>>, subdirs: Seq<Seq<char>>, i: int)
    requires
        0 <= i <= triples.len(),
        forall|k: int| 0 <= k < i ==> !subdirs.contains(triples[k]),
    ensures
        spec_first_present(triples, subdirs) == spec_first_present(triples.skip(i), subdirs),
    decreases i,
{
    if i > 0 {
        assert(!subdirs.contains(triples[0]));
        lemma_first_present_skip(triples.drop_first(), subdirs, i - 1);
        assert(triples.drop_first().skip(i - 1) =~= triples.skip(i));
    } else {
        assert(triples.skip(0) =~= triples);
    }
}

proof fn lemma_select_skip(cands: Seq<Seq<Seq<char>>>, exists: Seq<bool>, i: int)
    requires
        exists.len() == cands.len(),
        0 <= i <= cands.len(),
        forall|k: int| 0 <= k < i ==> !exists[k],
    ensures
        spec_select(cands, exists) == spec_select(cands.skip(i), exists.skip(i)),
    decreases i,
{
    if i > 0 {
        assert(!exists[0]);
        lemma_select_skip(cands.drop_first(), exists.drop_first(), i - 1);
        assert(cands.drop_first().skip(i - 1) =~= cands.skip(i));
        assert(exists.drop_first().skip(i - 1) =~= exists.skip(i));
    } else {
        assert(cands.skip(0) =~= cands);
        assert(exists.skip(0) =~= exists);
    }
}

/// The locator prefers the conventional layout `target/<mode>/<name>` over
/// any nested cross-target layout: whenever the conventional artifact exists,
/// it is the one selected.
pub proof fn lemma_native_preferred(
    m: Mode,
    name: Seq<char>,
    subdirs: Seq<Seq<char>>,
    exists: Seq<bool>,
)
    requires
        exists.len() == spec_candidates(m, name, subdirs).len(),
        exists[0],
    ensures
        spec_select(spec_candidates(m, name, subdirs), exists) == Some(
            spec_native_candidate(m, name),
        ),
{
}

impl Mode {
    /// Create the application mode from the presence of the release flag.
    pub fn new(release: bool) -> (m: Mode)
        ensures
            m == if release {
                Mode::Release
            } else {
                Mode::Debug
            },
    {
        if release {
            Mode::Release
        } else {
            Mode::Debug
        }
    }

    /// The name of the output subdirectory this mode selects.
    pub fn dir_name(&self) -> (r: &'static str)
        ensures
            r@ == spec_mode_dir(*self),
    {
        match self {
            Mode::Debug => "debug",
            Mode::Release => "release",
        }
    }

    /// Every location where the binary `name` may have been produced, most
    /// preferred first.  `subdirs` are the names of the immediate
    /// subdirectories of the `target` directory.
    pub fn candidates(&self, name: &String, subdirs: &Vec<String>) -> (r: Vec<ArtifactPath>)
        ensures
            r.deep_view() == spec_candidates(*self, name@, subdirs.deep_view()),
    {
        let mut native: Vec<String> = Vec::new();
        native.push(String::from_str("target"));
        native.push(String::from_str(self.dir_name()));
        native.push(name.clone());
        proof {
            assert(native.deep_view() =~= spec_native_candidate(*self, name@));
        }
        let mut r: Vec<ArtifactPath> = Vec::new();
        r.push(ArtifactPath { components: native });

        let triples = supported_cross_platforms();
        let mut i: usize = 0;
        while i < triples.len()
            invariant
                triples.deep_view() == spec_supported_triples(),
                i <= triples.len(),
                forall|k: int| 0 <= k < i ==> !subdirs.deep_view().contains(
                    #[trigger] triples.deep_view()[k],
                ),
                r.deep_view().len() == 1,
                r.deep_view()[0] == spec_native_candidate(*self, name@),
            decreases triples.len() - i,
        {
            if contains_string(subdirs, &triples[i]) {
                let mut nested: Vec<String> = Vec::new();
                nested.push(String::from_str("target"));
                nested.push(triples[i].clone());
                nested.push(String::from_str(self.dir_name()));
                nested.push(name.clone());
                proof {
                    assert(nested.deep_view() =~= spec_nested_candidate(
                        *self,
                        triples.deep_view()[i as int],
                        name@,
                    ));
                }
                r.push(ArtifactPath { components: nested });
                proof {
                    lemma_first_present_skip(spec_supported_triples(), subdirs.deep_view(), i as int);
                    assert(spec_supported_triples().skip(i as int)[0] == triples.deep_view()[i as int]);
                    assert(spec_first_present(spec_supported_triples(), subdirs.deep_view())
                        == Some(triples.deep_view()[i as int]));
                    assert(r.deep_view() =~= spec_candidates(*self, name@, subdirs.deep_view()));
                }
                return r;
            }
            i = i + 1;
        }
        proof {
            lemma_first_present_skip(
                spec_supported_triples(),
                subdirs.deep_view(),
                spec_supported_triples().len() as int,
            );
            assert(spec_supported_triples().skip(spec_supported_triples().len() as int).len() == 0);
            assert(spec_first_present(spec_supported_triples(), subdirs.deep_view()) is None);
            assert(r.deep_view() =~= spec_candidates(*self, name@, subdirs.deep_view()));
        }
        r
    }

    /// Query the path to the binary.
    ///
    /// `subdirs` are the names of the immediate subdirectories of `target`,
    /// and `exists[i]` reports whether the `i`-th candidate of
    /// [`Mode::candidates`] names an existing file.  The first existing
    /// candidate is returned; when none exists the binary cannot be found.
    pub fn binary(&self, name: &String, subdirs: &Vec<String>, exists: &Vec<bool>) -> (r: Result<
        ArtifactPath,
        Error,
    >)
        requires
            exists@.len() == spec_candidates(*self, name@, subdirs.deep_view()).len(),
        ensures
            ({
                let sel = spec_select(spec_candidates(*self, name@, subdirs.deep_view()), exists@);
                match r {
                    Ok(a) => sel == Some(a@),
                    Err(e) => sel is None && e == Error::BinaryNotFound,
                }
            }),
    {
        let ghost gc = spec_candidates(*self, name@, subdirs.deep_view());
        let mut cands = self.candidates(name, subdirs);
        let mut i: usize = 0;
        while i < cands.len()
            invariant
                gc == spec_candidates(*self, name@, subdirs.deep_view()),
                cands.deep_view() == gc,
                exists@.len() == gc.len(),
                i <= gc.len(),
                forall|k: int| 0 <= k < i ==> !exists@[k],
            decreases cands.len() - i,
        {
            if exists[i] {
                proof {
                    lemma_select_skip(gc, exists@, i as int);
                    assert(gc.skip(i as int)[0] == gc[i as int]);
                    assert(spec_select(gc, exists@) == Some(gc[i as int]));
                }
                let found = cands.remove(i);
                proof {
                    assert(found@ == gc[i as int]);
                }
                return Ok(found);
            }
            i = i + 1;
        }
        proof {
            lemma_select_skip(gc, exists@, gc.len() as int);
            assert(gc.skip(gc.len() as int).len() == 0);
            assert(spec_select(gc, exists@) is None);
        }
        Err(Error::BinaryNotFound)
    }
}

} // verus!
