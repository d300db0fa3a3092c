//! The definition table and the set of nested sources.
//!
//! A definition records a macro: its name, its optional parameter list
//! (present — even if empty — exactly for function-like macros), and its raw
//! replacement text, stored unexpanded. The table maps names to definitions;
//! `#define` overwrites silently, `#undef` removes, and one table is threaded
//! through a whole run.
//!
//! Nested sources are supplied up front as named texts; a directive that
//! names one inlines its processed output.

use vstd::prelude::*;
use crate::text::{chars_eq, copy_chars};

verus! {

/// A macro definition.
pub struct Def {
    pub name: Vec<char>,
    /// `Some` marks the macro function-like, even with no parameters.
    pub params: Option<Vec<Vec<char>>>,
    /// Raw replacement text, trimmed, continuations joined, unexpanded.
    pub text: Vec<char>,
}

/// Mathematical image of a definition.
pub struct DefV {
    pub name: Seq<char>,
    pub params: Option<Seq<Seq<char>>>,
    pub text: Seq<char>,
}

impl View for Def {
    type V = DefV;

    open spec fn view(&self) -> DefV {
        DefV {
            name: self.name@,
            params: match self.params {
                Option::None => Option::None,
                Option::Some(ps) => Option::Some(ps@.map_values(|p: Vec<char>| p@)),
            },
            text: self.text@,
        }
    }
}

/// Index of the first definition named `name`, or `t.len()` if none is.
pub open spec fn def_idx(t: Seq<DefV>, name: Seq<char>) -> int
    decreases t.len(),
{
    if t.len() == 0 {
        0
    } else if t[0].name == name {
        0
    } else {
        1 + def_idx(t.drop_first(), name)
    }
}

pub proof fn lemma_def_idx(t: Seq<DefV>, name: Seq<char>)
    ensures
        0 <= def_idx(t, name) <= t.len(),
        def_idx(t, name) < t.len() ==> t[def_idx(t, name)].name == name,
        forall|j: int| 0 <= j < def_idx(t, name) ==> t[j].name != name,
    decreases t.len(),
{
    if t.len() > 0 && t[0].name != name {
        lemma_def_idx(t.drop_first(), name);
        assert(forall|j: int|
            1 <= j < def_idx(t, name) ==> t[j] == t.drop_first()[j - 1]);
    }
}

/// The definition of `name`, if the table holds one.
pub open spec fn tbl_lookup(t: Seq<DefV>, name: Seq<char>) -> Option<DefV> {
    let i = def_idx(t, name);
    if i < t.len() {
        Option::Some(t[i])
    } else {
        Option::None
    }
}

/// The table after `#define`: the old definition of the same name, if any,
/// is silently overwritten.
pub open spec fn tbl_insert(t: Seq<DefV>, d: DefV) -> Seq<DefV> {
    let i = def_idx(t, d.name);
    if i < t.len() {
        t.update(i, d)
    } else {
        t.push(d)
    }
}

/// The table after `#undef name`.
pub open spec fn tbl_remove(t: Seq<DefV>, name: Seq<char>) -> Seq<DefV> {
    let i = def_idx(t, name);
    if i < t.len() {
        t.remove(i)
    } else {
        t
    }
}

/// The mutable table of macro definitions for one processing run.
pub struct DefTable {
    pub defs: Vec<Def>,
}

impl View for DefTable {
    type V = Seq<DefV>;

    open spec fn view(&self) -> Seq<DefV> {
        self.defs@.map_values(|d: Def| d@)
    }
}

/// A fresh copy of a definition.
fn copy_def(d: &Def) -> (r: Def)
    ensures
        r@ == d@,
{
    let params: Option<Vec<Vec<char>>> = match &d.params {
        Option::None => Option::None,
        Option::Some(ps) => {
            let mut out: Vec<Vec<char>> = Vec::new();
            let mut k: usize = 0;
            while k < ps.len()
                invariant
                    k <= ps.len(),
                    out@.len() == k,
                    forall|j: int| 0 <= j < k ==> out@[j]@ == ps@[j]@,
                decreases ps.len() - k,
            {
                out.push(copy_chars(&ps[k]));
                k = k + 1;
            }
            proof {
                assert(out@.map_values(|p: Vec<char>| p@) =~= ps@.map_values(
                    |p: Vec<char>| p@,
                ));
            }
            Option::Some(out)
        },
    };
    Def { name: copy_chars(&d.name), params, text: copy_chars(&d.text) }
}

impl DefTable {
    /// An empty table: the state at the start of a run.
    pub fn new() -> (t: DefTable)
        ensures
            t@ == Seq::<DefV>::empty(),
    {
        let t = DefTable { defs: Vec::new() };
        proof {
            assert(t@ =~= Seq::<DefV>::empty());
        }
        t
    }

    /// Index of the first definition named `name`, if one exists.
    fn find(&self, name: &Vec<char>) -> (r: Option<usize>)
        ensures
            match r {
                Option::Some(i) => i < self.defs.len() && i as int == def_idx(self@, name@),
                Option::None => def_idx(self@, name@) == self@.len(),
            },
    {
        let mut i: usize = 0;
        while i < self.defs.len()
            invariant
                i <= self.defs.len(),
                forall|j: int| 0 <= j < i ==> self@[j].name != name@,
            decreases self.defs.len() - i,
        {
            if chars_eq(&self.defs[i].name, name) {
                proof {
                    lemma_def_idx(self@, name@);
                    assert(self@[i as int].name == name@);
                }
                return Option::Some(i);
            }
            i = i + 1;
        }
        proof {
            lemma_def_idx(self@, name@);
        }
        Option::None
    }

    /// The definition of `name`, if the table holds one.
    pub fn get(&self, name: &Vec<char>) -> (r: Option<Def>)
        ensures
            match r {
                Option::Some(d) => tbl_lookup(self@, name@) == Option::Some(d@),
                Option::None => tbl_lookup(self@, name@) is None,
            },
    {
        match self.find(name) {
            Option::Some(i) => Option::Some(copy_def(&self.defs[i])),
            Option::None => Option::None,
        }
    }

    /// Records a definition, overwriting any prior one of the same name.
    pub fn insert(&mut self, d: Def)
        ensures
            final(self)@ == tbl_insert(old(self)@, d@),
    {
        let ghost dv = d@;
        match self.find(&d.name) {
            Option::Some(i) => {
                self.defs.remove(i);
                self.defs.insert(i, d);
                proof {
                    assert(self@ =~= tbl_insert(old(self)@, dv));
                }
            },
            Option::None => {
                self.defs.push(d);
                proof {
                    assert(self@ =~= tbl_insert(old(self)@, dv));
                }
            },
        }
    }

    /// Removes the definition of `name`, if the table holds one.
    pub fn remove(&mut self, name: &Vec<char>)
        ensures
            final(self)@ == tbl_remove(old(self)@, name@),
    {
        match self.find(name) {
            Option::Some(i) => {
                self.defs.remove(i);
                proof {
                    assert(self@ =~= tbl_remove(old(self)@, name@));
                }
            },
            Option::None => {
                proof {
                    assert(self@ =~= tbl_remove(old(self)@, name@));
                }
            },
        }
    }
}

/// A nested source: its path and its text.
pub struct SourceFile {
    pub path: Vec<char>,
    pub text: Vec<char>,
}

/// Mathematical image of a nested source.
pub struct FileV {
    pub path: Seq<char>,
    pub text: Seq<char>,
}

impl View for SourceFile {
    type V = FileV;

    open spec fn view(&self) -> FileV {
        FileV { path: self.path@, text: self.text@ }
    }
}

/// Index of the first source at `path`, or `fs.len()` if none is.
pub open spec fn file_idx(fs: Seq<FileV>, path: Seq<char>) -> int
    decreases fs.len(),
{
    if fs.len() == 0 {
        0
    } else if fs[0].path == path {
        0
    } else {
        1 + file_idx(fs.drop_first(), path)
    }
}

pub proof fn lemma_file_idx(fs: Seq<FileV>, path: Seq<char>)
    ensures
        0 <= file_idx(fs, path) <= fs.len(),
        file_idx(fs, path) < fs.len() ==> fs[file_idx(fs, path)].path == path,
        forall|j: int| 0 <= j < file_idx(fs, path) ==> fs[j].path != path,
    decreases fs.len(),
{
    if fs.len() > 0 && fs[0].path != path {
        lemma_file_idx(fs.drop_first(), path);
        assert(forall|j: int|
            1 <= j < file_idx(fs, path) ==> fs[j] == fs.drop_first()[j - 1]);
    }
}

/// The text of the source at `path`, if one is available.
pub open spec fn file_text(fs: Seq<FileV>, path: Seq<char>) -> Option<Seq<char>> {
    let i = file_idx(fs, path);
    if i < fs.len() {
        Option::Some(fs[i].text)
    } else {
        Option::None
    }
}

/// The sources available to one processing run, by path.
pub struct Files {
    pub files: Vec<SourceFile>,
}

impl View for Files {
    type V = Seq<FileV>;

    open spec fn view(&self) -> Seq<FileV> {
        self.files@.map_values(|f: SourceFile| f@)
    }
}

impl Files {
    /// No nested sources at all.
    pub fn new() -> (r: Files)
        ensures
            r@ == Seq::<FileV>::empty(),
    {
        let r = Files { files: Vec::new() };
        proof {
            assert(r@ =~= Seq::<FileV>::empty());
        }
        r
    }

    /// Makes the text at `path` available to the run.
    pub fn add(&mut self, path: Vec<char>, text: Vec<char>)
        ensures
            final(self)@ == old(self)@.push(FileV { path: path@, text: text@ }),
    {
        let ghost fv = FileV { path: path@, text: text@ };
        self.files.push(SourceFile { path, text });
        proof {
            assert(self@ =~= old(self)@.push(fv));
        }
    }

    /// The text at `path`, if a source was supplied for it.
    pub fn get(&self, path: &Vec<char>) -> (r: Option<Vec<char>>)
        ensures
            match r {
                Option::Some(t) => file_text(self@, path@) == Option::Some(t@),
                Option::None => file_text(self@, path@) is None,
            },
    {
        let mut i: usize = 0;
        while i < self.files.len()
            invariant
                i <= self.files.len(),
                forall|j: int| 0 <= j < i ==> self@[j].path != path@,
            decreases self.files.len() - i,
        {
            if chars_eq(&self.files[i].path, path) {
                proof {
                    lemma_file_idx(self@, path@);
                    assert(self@[i as int].path == path@);
                }
                return Option::Some(copy_chars(&self.files[i].text));
            }
            i = i + 1;
        }
        proof {
            lemma_file_idx(self@, path@);
        }
        Option::None
    }
}

} // verus!
