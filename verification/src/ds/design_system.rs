//! The `DesignSystem` aggregate: the seven pieces of a design-system
//! directory, read and parsed, plus what the roles ask of them.
//!
//! Reading the directory is the caller's part; this module assembles the
//! parsed pieces and answers ref, component and case-library questions.

use vstd::prelude::*;
use crate::ds::components::Components;
use crate::ds::constraints::Constraints;
use crate::ds::error::{DsError, DsFault};
use crate::ds::tokens::{law_refs_are_what_get_resolves, refs_of, token_at, token_text, Tokens};
use crate::json::Json;
use crate::sorted_keys::{keys_ascending, text_less};
use crate::text::{copy_string, keys_of, push_char, push_str, str_eq, str_starts_with, to_owned};

verus! {

pub const CRATE_NAME: &'static str = "cd-ds";

/// The root a design system compiled into the program reports.
pub const BUNDLED_ROOT: &'static str = "<bundled>";

/// Metadata derived from the DS root (name, version, path).
#[derive(Debug)]
pub struct DsMeta {
    pub name: String,
    pub version: String,
    pub root: String,
}

/// One entry in `cases/index.json`.
#[derive(Debug, Clone)]
pub struct CaseEntry {
    pub id: String,
    pub title: String,
    pub tags: Vec<String>,
    pub image: String,
    pub note: String,
}

/// Parsed cases/index.json.
#[derive(Debug)]
pub struct CaseIndex {
    pub version: String,
    pub cases: Vec<CaseEntry>,
}

/// A fully loaded, validated DesignSystem.
#[derive(Debug)]
pub struct DesignSystem {
    pub meta: DsMeta,
    pub tokens: Tokens,
    pub components: Components,
    pub patterns: Json,
    pub constraints: Constraints,
    pub voice: String,
    pub design_md: String,
    pub cases: CaseIndex,
}

impl Default for CaseIndex {
    fn default() -> (r: CaseIndex)
        ensures
            r.version@ == Seq::<char>::empty(),
            r.cases@.len() == 0,
    {
        CaseIndex { version: String::new(), cases: Vec::new() }
    }
}

/// `a` joined with `b` the way a Unix path is: an absolute `b` replaces
/// `a`, and one `/` separates them unless `a` is empty or already ends in
/// one.
pub open spec fn path_join(a: Seq<char>, b: Seq<char>) -> Seq<char> {
    if b.len() > 0 && b[0] == '/' {
        b
    } else if a.len() == 0 {
        b
    } else if a.last() == '/' {
        a + b
    } else {
        a + seq!['/'] + b
    }
}

/// Where a case's image lives under a DS root.
pub open spec fn case_image_path(root: Seq<char>, image: Seq<char>) -> Seq<char> {
    path_join(path_join(root, "cases"@), image)
}

/// Two case entries hold the same texts.
pub open spec fn same_case(a: CaseEntry, b: CaseEntry) -> bool {
    &&& a.id@ == b.id@
    &&& a.title@ == b.title@
    &&& a.tags@.len() == b.tags@.len()
    &&& forall|i: int| 0 <= i < a.tags@.len() ==> #[trigger] a.tags@[i]@ == b.tags@[i]@
    &&& a.image@ == b.image@
    &&& a.note@ == b.note@
}

/// The cases that name an image, each with the path of that image; none
/// for a design system compiled into the program.
pub open spec fn case_images(root: Seq<char>, cases: Seq<CaseEntry>) -> Seq<(CaseEntry, Seq<char>)>
    decreases cases.len(),
{
    if cases.len() == 0 {
        seq![]
    } else {
        let prev = case_images(root, cases.drop_last());
        let c = cases.last();
        if c.image@.len() == 0 {
            prev
        } else {
            prev.push((c, case_image_path(root, c.image@)))
        }
    }
}

/// The case images a design system lists: none when it is compiled into
/// the program.
pub open spec fn image_candidates(ds: DesignSystem) -> Seq<(CaseEntry, Seq<char>)> {
    if ds.meta.root@ == BUNDLED_ROOT@ {
        seq![]
    } else {
        case_images(ds.meta.root@, ds.cases.cases@)
    }
}

/// What `value_for_ref` answers.
pub open spec fn ref_value(ds: DesignSystem, r: Seq<char>) -> Result<Seq<char>, DsFault> {
    match token_at(ds.tokens@, r) {
        Some(v) => Ok(token_text(v)),
        None => Err(DsFault::UnknownRef(r)),
    }
}

pub fn join_path(a: &str, b: &str) -> (r: String)
    ensures
        r@ == path_join(a@, b@),
{
    if str_starts_with(b, "/") {
        proof {
            reveal_strlit("/");
            assert(b@[0] == b@.subrange(0, 1)[0]);
        }
        return to_owned(b);
    }
    proof {
        reveal_strlit("/");
        assert(!(b@.len() > 0 && b@[0] == '/')) by {
            if b@.len() > 0 && b@[0] == '/' {
                assert(b@.subrange(0, 1) =~= "/"@);
            }
        }
    }
    if a.is_empty() {
        return to_owned(b);
    }
    let mut r = to_owned(a);
    if !crate::text::str_ends_with(a, "/") {
        push_char(&mut r, '/');
        proof {
            assert(!(a@.last() == '/')) by {
                if a@.last() == '/' {
                    assert(a@.subrange(a@.len() - 1, a@.len() as int) =~= "/"@);
                }
            }
        }
    } else {
        assert(a@.subrange(a@.len() - 1, a@.len() as int) =~= "/"@);
        assert(a@.last() == "/"@[0]);
    }
    push_str(&mut r, b);
    r
}

fn copy_case(c: &CaseEntry) -> (r: CaseEntry)
    ensures
        same_case(r, *c),
{
    let mut tags: Vec<String> = Vec::new();
    let mut i: usize = 0;
    while i < c.tags.len()
        invariant
            i <= c.tags@.len(),
            tags@.len() == i,
            forall|j: int| 0 <= j < i ==> #[trigger] tags@[j]@ == c.tags@[j]@,
        decreases c.tags.len() - i,
    {
        tags.push(copy_string(&c.tags[i]));
        i = i + 1;
    }
    CaseEntry {
        id: copy_string(&c.id),
        title: copy_string(&c.title),
        tags,
        image: copy_string(&c.image),
        note: copy_string(&c.note),
    }
}

impl DesignSystem {
    /// Assembles a design system from its parsed pieces. The version shown
    /// in its metadata is the tokens file's.
    pub fn from_pieces(
        name: String,
        root: String,
        tokens: Tokens,
        components: Components,
        patterns: Json,
        constraints: Constraints,
        voice: String,
        design_md: String,
        cases: CaseIndex,
    ) -> (ds: DesignSystem)
        ensures
            ds.meta.name == name,
            ds.meta.root == root,
            ds.meta.version@ == tokens.version@,
            ds.tokens == tokens,
            ds.components == components,
            ds.patterns == patterns,
            ds.constraints == constraints,
            ds.voice == voice,
            ds.design_md == design_md,
            ds.cases == cases,
    {
        let version = copy_string(&tokens.version);
        DesignSystem {
            meta: DsMeta { name, version, root },
            tokens,
            components,
            patterns,
            constraints,
            voice,
            design_md,
            cases,
        }
    }

    /// Resolves a token ref (e.g. `"color.bg.base"`) to its human-readable
    /// value; an unknown ref is an error.
    pub fn value_for_ref(&self, token_ref: &str) -> (r: Result<String, DsError>)
        ensures
            match ref_value(*self, token_ref@) {
                Ok(v) => r matches Ok(s) && s@ == v,
                Err(f) => r matches Err(e) && e@ == f,
            },
    {
        match self.tokens.get(token_ref) {
            Some(v) => Ok(v.display()),
            None => Err(DsError::UnknownRef(to_owned(token_ref))),
        }
    }

    /// True iff the ref resolves in any section of the tokens file.
    pub fn knows_ref(&self, token_ref: &str) -> (b: bool)
        ensures
            b == token_at(self.tokens@, token_ref@) is Some,
    {
        self.tokens.get(token_ref).is_some()
    }

    /// Component names defined in this DS, for the Plan role.
    pub fn component_names(&self) -> (r: Vec<String>)
        ensures
            r@.map_values(|s: String| s@) == keys_of(self.components.items@),
            keys_ascending(self.components.items@) ==> forall|i: int, j: int|
                0 <= i < j < r@.len() ==> text_less(#[trigger] r@[i]@, #[trigger] r@[j]@),
    {
        self.components.names()
    }

    /// The case entries that name an image, each with the path where that
    /// image should be; a design system compiled into the program has none.
    /// Which of these paths exist on disk is for the caller to check.
    pub fn case_image_candidates(&self) -> (r: Vec<(CaseEntry, String)>)
        ensures
            r@.len() == image_candidates(*self).len(),
            forall|k: int|
                0 <= k < image_candidates(*self).len() ==> same_case(
                    #[trigger] r@[k].0,
                    image_candidates(*self)[k].0,
                ) && r@[k].1@ == image_candidates(*self)[k].1,
    {
        let mut out: Vec<(CaseEntry, String)> = Vec::new();
        if str_eq(self.meta.root.as_str(), BUNDLED_ROOT) {
            return out;
        }
        let cases = &self.cases.cases;
        let root = self.meta.root.as_str();
        let mut i: usize = 0;
        while i < cases.len()
            invariant
                i <= cases@.len(),
                cases == &self.cases.cases,
                root@ == self.meta.root@,
                ({
                    let want = case_images(self.meta.root@, cases@.subrange(0, i as int));
                    &&& out@.len() == want.len()
                    &&& forall|k: int|
                        0 <= k < want.len() ==> same_case(#[trigger] out@[k].0, want[k].0)
                            && out@[k].1@ == want[k].1
                }),
            decreases cases.len() - i,
        {
            let ghost pre = cases@.subrange(0, i + 1);
            assert(pre.drop_last() =~= cases@.subrange(0, i as int));
            assert(pre.last() == cases@[i as int]);
            let c = &cases[i];
            if !c.image.as_str().is_empty() {
                let dir = join_path(root, "cases");
                let path = join_path(dir.as_str(), c.image.as_str());
                out.push((copy_case(c), path));
            }
            i = i + 1;
        }
        assert(cases@.subrange(0, cases@.len() as int) =~= cases@);
        assert(self.meta.root@ != BUNDLED_ROOT@);
        let ghost want = image_candidates(*self);
        assert(out@.len() == want.len());
        assert(forall|k: int|
            0 <= k < want.len() ==> same_case(#[trigger] out@[k].0, want[k].0) && out@[k].1@
                == want[k].1);
        out
    }
}


/// A ref is known to a design system exactly when `value_for_ref` resolves
/// it, which is exactly when the tokens file lists it among its refs; an
/// unknown ref is reported by name.
pub proof fn law_known_refs_resolve(ds: DesignSystem, r: Seq<char>)
    ensures
        (token_at(ds.tokens@, r) is Some) <==> ref_value(ds, r) is Ok,
        (token_at(ds.tokens@, r) is Some) <==> refs_of(ds.tokens@).contains(r),
        ref_value(ds, r) is Err ==> ref_value(ds, r) == Err::<Seq<char>, DsFault>(DsFault::UnknownRef(r)),
{
    law_refs_are_what_get_resolves(ds.tokens@, r);
}

} // verus!
