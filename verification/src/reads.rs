//! The ingestion engine's read operations: pure queries over the graph,
//! each scoped by repository name.

use vstd::prelude::*;
use vstd::string::*;
use crate::store::{
    GraphStore, GraphStoreV, FileNode, FileNodeV, SymNode, SymNodeV, ContainsEdgeV, file_key,
    sym_key, spec_ingest, spec_file_node,
};
use crate::keyed::{
    first_key_at, lemma_first_key_at, concat_fold, lemma_concat_fold_members,
    lemma_concat_fold_update, lemma_concat_fold_push, lemma_upsert_shape,
};
use crate::tree::str_eq;
use crate::lang::spec_lang_name;
use crate::facts::ParsingResultV;
use crate::encode::spec_file_id;

verus! {

/// One row of the file listing.
pub struct FileRow {
    pub path: String,
    pub language: String,
}

/// Spec view of a `FileRow`.
#[verifier::ext_equal]
pub ghost struct FileRowV {
    pub path: Seq<char>,
    pub language: Seq<char>,
}

impl DeepView for FileRow {
    type V = FileRowV;

    open spec fn deep_view(&self) -> FileRowV {
        FileRowV { path: self.path@, language: self.language@ }
    }
}

/// One row of the symbol listing.
pub struct SymbolRow {
    pub name: String,
    pub kind: String,
    pub docstring: String,
    pub signature: String,
    pub return_type: String,
    pub visibility: String,
    pub parent_class: String,
    pub params: String,
    pub decorators: String,
    pub file: String,
    pub line_start: u64,
    pub line_end: u64,
}

/// Spec view of a `SymbolRow`.
#[verifier::ext_equal]
pub ghost struct SymbolRowV {
    pub name: Seq<char>,
    pub kind: Seq<char>,
    pub docstring: Seq<char>,
    pub signature: Seq<char>,
    pub return_type: Seq<char>,
    pub visibility: Seq<char>,
    pub parent_class: Seq<char>,
    pub params: Seq<char>,
    pub decorators: Seq<char>,
    pub file: Seq<char>,
    pub line_start: int,
    pub line_end: int,
}

impl DeepView for SymbolRow {
    type V = SymbolRowV;

    open spec fn deep_view(&self) -> SymbolRowV {
        SymbolRowV {
            name: self.name@,
            kind: self.kind@,
            docstring: self.docstring@,
            signature: self.signature@,
            return_type: self.return_type@,
            visibility: self.visibility@,
            parent_class: self.parent_class@,
            params: self.params@,
            decorators: self.decorators@,
            file: self.file@,
            line_start: self.line_start as int,
            line_end: self.line_end as int,
        }
    }
}

/// One grouped count, keyed by a kind or language name.
pub struct CountRow {
    pub key: String,
    pub count: u64,
}

/// Spec view of a `CountRow`.
#[verifier::ext_equal]
pub ghost struct CountRowV {
    pub key: Seq<char>,
    pub count: int,
}

impl DeepView for CountRow {
    type V = CountRowV;

    open spec fn deep_view(&self) -> CountRowV {
        CountRowV { key: self.key@, count: self.count as int }
    }
}

/// The first file node with identity `id`, if any.
pub open spec fn spec_find_file(files: Seq<FileNodeV>, id: Seq<char>) -> Option<FileNodeV> {
    let i = first_key_at(files, file_key(), id);
    if i < 0 || i >= files.len() {
        Option::None
    } else {
        Option::Some(files[i])
    }
}

/// The first symbol node with identity `id`, if any.
pub open spec fn spec_find_symbol(symbols: Seq<SymNodeV>, id: Seq<char>) -> Option<SymNodeV> {
    let i = first_key_at(symbols, sym_key(), id);
    if i < 0 || i >= symbols.len() {
        Option::None
    } else {
        Option::Some(symbols[i])
    }
}

/// Finds the first file node with this identity.
fn find_file<'a>(files: &'a Vec<FileNode>, id: &String) -> (r: Option<&'a FileNode>)
    ensures
        match r {
            Option::Some(f) => spec_find_file(files.deep_view(), id@) == Option::Some(
                f.deep_view(),
            ),
            Option::None => spec_find_file(files.deep_view(), id@) is None,
        },
{
    let ghost dv = files.deep_view();
    proof {
        lemma_first_key_at(dv, file_key(), id@);
    }
    let n = files.len();
    let mut i: usize = 0;
    while i < n
        invariant
            i <= n,
            n == files@.len(),
            dv == files.deep_view(),
            forall|j: int| 0 <= j < i ==> (#[trigger] dv[j]).id != id@,
        decreases n - i,
    {
        proof {
            assert(dv[i as int] == files@[i as int].deep_view());
        }
        if str_eq(files[i].id.as_str(), id.as_str()) {
            proof {
                let k = first_key_at(dv, file_key(), id@);
                assert(k >= 0);
                if k < i {
                    assert(dv[k].id != id@);
                }
                if k > i {
                    assert(dv[i as int].id != id@);
                }
            }
            return Some(&files[i]);
        }
        i = i + 1;
    }
    None
}

/// Finds the first symbol node with this identity.
fn find_symbol<'a>(symbols: &'a Vec<SymNode>, id: &String) -> (r: Option<&'a SymNode>)
    ensures
        match r {
            Option::Some(s) => spec_find_symbol(symbols.deep_view(), id@) == Option::Some(
                s.deep_view(),
            ),
            Option::None => spec_find_symbol(symbols.deep_view(), id@) is None,
        },
{
    let ghost dv = symbols.deep_view();
    proof {
        lemma_first_key_at(dv, sym_key(), id@);
    }
    let n = symbols.len();
    let mut i: usize = 0;
    while i < n
        invariant
            i <= n,
            n == symbols@.len(),
            dv == symbols.deep_view(),
            forall|j: int| 0 <= j < i ==> (#[trigger] dv[j]).id != id@,
        decreases n - i,
    {
        proof {
            assert(dv[i as int] == symbols@[i as int].deep_view());
        }
        if str_eq(symbols[i].id.as_str(), id.as_str()) {
            proof {
                let k = first_key_at(dv, sym_key(), id@);
                assert(k >= 0);
                if k < i {
                    assert(dv[k].id != id@);
                }
                if k > i {
                    assert(dv[i as int].id != id@);
                }
            }
            return Some(&symbols[i]);
        }
        i = i + 1;
    }
    None
}

/// What one file node contributes to the file listing of `repo`.
pub open spec fn filerow_fn(repo: Seq<char>) -> spec_fn(FileNodeV) -> Seq<FileRowV> {
    |f: FileNodeV|
        if f.repo == repo {
            seq![FileRowV { path: f.path, language: f.language }]
        } else {
            Seq::empty()
        }
}

/// The file listing of a repository: path and language of each of its
/// files, in store order.
pub open spec fn spec_get_all_files(g: GraphStoreV, repo: Seq<char>) -> Seq<FileRowV> {
    concat_fold(g.files, filerow_fn(repo))
}

/// What one CONTAINS edge contributes to the symbol listing of `repo`.
pub open spec fn symrow_fn(g: GraphStoreV, repo: Seq<char>) -> spec_fn(ContainsEdgeV) -> Seq<
    SymbolRowV,
> {
    |e: ContainsEdgeV|
        match (spec_find_file(g.files, e.file_id), spec_find_symbol(g.symbols, e.symbol_id)) {
            (Option::Some(f), Option::Some(s)) => {
                if f.repo == repo {
                    seq![
                        SymbolRowV {
                            name: s.name,
                            kind: s.kind,
                            docstring: s.doc,
                            signature: s.sig,
                            return_type: s.ret,
                            visibility: s.vis,
                            parent_class: s.parent,
                            params: s.params,
                            decorators: s.decos,
                            file: f.path,
                            line_start: s.line_start,
                            line_end: s.line_end,
                        },
                    ]
                } else {
                    Seq::empty()
                }
            },
            _ => Seq::empty(),
        }
}

/// The symbol listing of a repository: one row per CONTAINS edge whose
/// file belongs to the repository, with the symbol's properties and its
/// file's path.
pub open spec fn spec_get_all_symbols(g: GraphStoreV, repo: Seq<char>) -> Seq<SymbolRowV> {
    concat_fold(g.contains, symrow_fn(g, repo))
}

/// One occurrence count bumped, or a new entry appended.
pub open spec fn spec_bump(counts: Seq<CountRowV>, k: Seq<char>) -> Seq<CountRowV> {
    let i = first_key_at(counts, count_key(), k);
    if i < 0 || i >= counts.len() {
        counts.push(CountRowV { key: k, count: 1 })
    } else {
        counts.update(i, CountRowV { key: k, count: counts[i].count + 1 })
    }
}

/// The grouping key of a count row.
pub open spec fn count_key() -> spec_fn(CountRowV) -> Seq<char> {
    |c: CountRowV| c.key
}

/// The keys of `s` grouped and counted, in first-seen order.
pub open spec fn spec_group_count(keys: Seq<Seq<char>>) -> Seq<CountRowV>
    decreases keys.len(),
{
    if keys.len() == 0 {
        Seq::empty()
    } else {
        spec_bump(spec_group_count(keys.subrange(0, keys.len() - 1)), keys[keys.len() - 1])
    }
}

/// Every group count is positive and no larger than the number of keys.
pub proof fn lemma_group_count_bound(keys: Seq<Seq<char>>)
    ensures
        forall|j: int|
            0 <= j < spec_group_count(keys).len() ==> 1 <= (#[trigger] spec_group_count(
                keys,
            )[j]).count <= keys.len(),
    decreases keys.len(),
{
    if keys.len() > 0 {
        let pre = keys.subrange(0, keys.len() - 1);
        lemma_group_count_bound(pre);
        let c = spec_group_count(pre);
        lemma_first_key_at(c, count_key(), keys[keys.len() - 1]);
    }
}

/// What one CONTAINS edge contributes to the kind grouping of `repo`.
pub open spec fn kind_fn(g: GraphStoreV, repo: Seq<char>) -> spec_fn(ContainsEdgeV) -> Seq<
    Seq<char>,
> {
    |e: ContainsEdgeV|
        match (spec_find_file(g.files, e.file_id), spec_find_symbol(g.symbols, e.symbol_id)) {
            (Option::Some(f), Option::Some(s)) => {
                if f.repo == repo {
                    seq![s.kind]
                } else {
                    Seq::empty()
                }
            },
            _ => Seq::empty(),
        }
}

/// The symbol counts of a repository, grouped by kind.
pub open spec fn spec_count_by_kind(g: GraphStoreV, repo: Seq<char>) -> Seq<CountRowV> {
    spec_group_count(concat_fold(g.contains, kind_fn(g, repo)))
}

/// What one file node contributes to the language grouping of `repo`.
pub open spec fn langkey_fn(repo: Seq<char>) -> spec_fn(FileNodeV) -> Seq<Seq<char>> {
    |f: FileNodeV|
        if f.repo == repo {
            seq![f.language]
        } else {
            Seq::empty()
        }
}

/// The file counts of a repository, grouped by language.
pub open spec fn spec_get_file_languages(g: GraphStoreV, repo: Seq<char>) -> Seq<CountRowV> {
    spec_group_count(concat_fold(g.files, langkey_fn(repo)))
}

/// Bumps the count of `k`, or starts it at one.
fn bump(counts: &mut Vec<CountRow>, k: &String)
    requires
        forall|j: int|
            0 <= j < old(counts)@.len() ==> 1 <= (#[trigger] old(counts).deep_view()[j]).count
                < u64::MAX,
    ensures
        final(counts).deep_view() == spec_bump(old(counts).deep_view(), k@),
{
    let ghost dv = old(counts).deep_view();
    proof {
        lemma_first_key_at(dv, count_key(), k@);
    }
    let n = counts.len();
    let mut i: usize = 0;
    while i < n
        invariant
            i <= n,
            n == counts@.len(),
            dv == counts.deep_view(),
            forall|j: int| 0 <= j < i ==> (#[trigger] dv[j]).key != k@,
            forall|j: int| 0 <= j < n ==> 1 <= (#[trigger] dv[j]).count < u64::MAX,
        decreases n - i,
    {
        proof {
            assert(dv[i as int] == counts@[i as int].deep_view());
        }
        if str_eq(counts[i].key.as_str(), k.as_str()) {
            proof {
                let w = first_key_at(dv, count_key(), k@);
                assert(w >= 0);
                if w < i {
                    assert(dv[w].key != k@);
                }
                if w > i {
                    assert(dv[i as int].key != k@);
                }
            }
            let newc = counts[i].count + 1;
            let ghost pre = counts@;
            let removed = counts.remove(i);
            counts.insert(i, CountRow { key: removed.key, count: newc });
            proof {
                assert(counts@ =~= pre.update(
                    i as int,
                    CountRow { key: pre[i as int].key, count: (pre[i as int].count + 1) as u64 },
                ));
                assert forall|ii: int|
                    0 <= ii < counts@.len() implies counts.deep_view()[ii] == spec_bump(dv, k@)[ii] by {
                    assert(counts.deep_view()[ii] == counts@[ii].deep_view());
                    if ii != i {
                        assert(counts@[ii] == pre[ii]);
                    }
                }
                assert(counts.deep_view() =~= spec_bump(dv, k@));
            }
            return;
        }
        i = i + 1;
    }
    proof {
        let w = first_key_at(dv, count_key(), k@);
        if w >= 0 {
            assert(dv[w].key != k@);
        }
    }
    counts.push(CountRow { key: k.clone(), count: 1 });
    proof {
        assert(counts.deep_view() =~= dv.push(CountRowV { key: k@, count: 1 }));
    }
}

impl GraphStore {
    /// Lists every file of a repository with its language.
    pub fn get_all_files(&self, repo_name: &str) -> (r: Vec<FileRow>)
        ensures
            r.deep_view() == spec_get_all_files(self.deep_view(), repo_name@),
    {
        let ghost fdv = self.files.deep_view();
        let mut out: Vec<FileRow> = Vec::new();
        let n = self.files.len();
        let mut i: usize = 0;
        proof {
            assert(fdv.take(0) =~= Seq::<FileNodeV>::empty());
            assert(out.deep_view() =~= concat_fold(fdv.take(0), filerow_fn(repo_name@)));
        }
        while i < n
            invariant
                i <= n,
                n == self.files@.len(),
                fdv == self.files.deep_view(),
                out.deep_view() == concat_fold(fdv.take(i as int), filerow_fn(repo_name@)),
            decreases n - i,
        {
            let ghost k = i as int;
            let ghost prev = out.deep_view();
            proof {
                assert(fdv[k] == self.files@[k].deep_view());
                assert(fdv.take(k + 1).subrange(0, k) =~= fdv.take(k));
                assert(fdv.take(k + 1)[k] == fdv[k]);
            }
            if str_eq(self.files[i].repo.as_str(), repo_name) {
                out.push(
                    FileRow {
                        path: self.files[i].path.clone(),
                        language: self.files[i].language.clone(),
                    },
                );
                proof {
                    assert(out.deep_view() =~= prev.push(
                        FileRowV { path: fdv[k].path, language: fdv[k].language },
                    ));
                }
            }
            proof {
                assert(out.deep_view() =~= concat_fold(fdv.take(k + 1), filerow_fn(repo_name@)));
            }
            i = i + 1;
        }
        proof {
            assert(fdv.take(n as int) =~= fdv);
        }
        out
    }

    /// Lists every symbol of a repository with its properties and its
    /// file's path.
    pub fn get_all_symbols(&self, repo_name: &str) -> (r: Vec<SymbolRow>)
        ensures
            r.deep_view() == spec_get_all_symbols(self.deep_view(), repo_name@),
    {
        let ghost g = self.deep_view();
        let ghost cdv = self.contains.deep_view();
        let mut out: Vec<SymbolRow> = Vec::new();
        let n = self.contains.len();
        let mut i: usize = 0;
        proof {
            assert(cdv.take(0) =~= Seq::<ContainsEdgeV>::empty());
            assert(out.deep_view() =~= concat_fold(cdv.take(0), symrow_fn(g, repo_name@)));
        }
        while i < n
            invariant
                i <= n,
                n == self.contains@.len(),
                g == self.deep_view(),
                cdv == self.contains.deep_view(),
                out.deep_view() == concat_fold(cdv.take(i as int), symrow_fn(g, repo_name@)),
            decreases n - i,
        {
            let ghost k = i as int;
            let ghost prev = out.deep_view();
            proof {
                assert(cdv[k] == self.contains@[k].deep_view());
                assert(cdv.take(k + 1).subrange(0, k) =~= cdv.take(k));
                assert(cdv.take(k + 1)[k] == cdv[k]);
            }
            match find_file(&self.files, &self.contains[i].file_id) {
                Some(f) => {
                    match find_symbol(&self.symbols, &self.contains[i].symbol_id) {
                        Some(s) => {
                            if str_eq(f.repo.as_str(), repo_name) {
                                out.push(
                                    SymbolRow {
                                        name: s.name.clone(),
                                        kind: s.kind.clone(),
                                        docstring: s.doc.clone(),
                                        signature: s.sig.clone(),
                                        return_type: s.ret.clone(),
                                        visibility: s.vis.clone(),
                                        parent_class: s.parent.clone(),
                                        params: s.params.clone(),
                                        decorators: s.decos.clone(),
                                        file: f.path.clone(),
                                        line_start: s.line_start,
                                        line_end: s.line_end,
                                    },
                                );
                                proof {
                                    assert(out.deep_view() =~~= prev + symrow_fn(g, repo_name@)(
                                        cdv[k],
                                    ));
                                }
                            }
                        },
                        None => {},
                    }
                },
                None => {},
            }
            proof {
                assert(out.deep_view() =~= concat_fold(cdv.take(k + 1), symrow_fn(g, repo_name@)));
            }
            i = i + 1;
        }
        proof {
            assert(cdv.take(n as int) =~= cdv);
        }
        out
    }

    /// Counts the symbols of a repository, grouped by kind.
    pub fn count_by_kind(&self, repo_name: &str) -> (r: Vec<CountRow>)
        ensures
            r.deep_view() == spec_count_by_kind(self.deep_view(), repo_name@),
    {
        let ghost g = self.deep_view();
        let ghost cdv = self.contains.deep_view();
        let mut out: Vec<CountRow> = Vec::new();
        let n = self.contains.len();
        let mut i: usize = 0;
        proof {
            assert(cdv.take(0) =~= Seq::<ContainsEdgeV>::empty());
            assert(concat_fold(cdv.take(0), kind_fn(g, repo_name@)) == Seq::<Seq<char>>::empty());
            assert(out.deep_view() =~= spec_group_count(
                concat_fold(cdv.take(0), kind_fn(g, repo_name@)),
            ));
        }
        while i < n
            invariant
                i <= n,
                n == self.contains@.len(),
                g == self.deep_view(),
                cdv == self.contains.deep_view(),
                out.deep_view() == spec_group_count(
                    concat_fold(cdv.take(i as int), kind_fn(g, repo_name@)),
                ),
            decreases n - i,
        {
            let ghost k = i as int;
            let ghost keys_k = concat_fold(cdv.take(k), kind_fn(g, repo_name@));
            proof {
                assert(cdv[k] == self.contains@[k].deep_view());
                assert(cdv.take(k + 1).subrange(0, k) =~= cdv.take(k));
                assert(cdv.take(k + 1)[k] == cdv[k]);
                lemma_group_count_bound(keys_k);
                assert(keys_k.len() <= k) by {
                    lemma_kind_keys_len(cdv.take(k), kind_fn(g, repo_name@));
                }
                assert forall|j: int|
                    0 <= j < out@.len() implies 1 <= (#[trigger] out.deep_view()[j]).count
                    < u64::MAX by {
                    assert(spec_group_count(keys_k)[j].count <= keys_k.len());
                }
            }
            match find_file(&self.files, &self.contains[i].file_id) {
                Some(f) => {
                    match find_symbol(&self.symbols, &self.contains[i].symbol_id) {
                        Some(s) => {
                            if str_eq(f.repo.as_str(), repo_name) {
                                bump(&mut out, &s.kind);
                                proof {
                                    assert(concat_fold(cdv.take(k + 1), kind_fn(g, repo_name@))
                                        =~= keys_k.push(s.deep_view().kind));
                                    assert(spec_group_count(keys_k.push(s.deep_view().kind))
                                        == spec_bump(spec_group_count(keys_k), s.deep_view().kind))
                                        by {
                                        let ks = keys_k.push(s.deep_view().kind);
                                        assert(ks.subrange(0, ks.len() - 1) =~= keys_k);
                                        assert(ks[ks.len() - 1] == s.deep_view().kind);
                                    }
                                }
                            }
                        },
                        None => {},
                    }
                },
                None => {},
            }
            proof {
                assert(out.deep_view() =~= spec_group_count(
                    concat_fold(cdv.take(k + 1), kind_fn(g, repo_name@)),
                ));
            }
            i = i + 1;
        }
        proof {
            assert(cdv.take(n as int) =~= cdv);
        }
        out
    }

    /// Counts the files of a repository, grouped by language.
    pub fn get_file_languages(&self, repo_name: &str) -> (r: Vec<CountRow>)
        ensures
            r.deep_view() == spec_get_file_languages(self.deep_view(), repo_name@),
    {
        let ghost fdv = self.files.deep_view();
        let mut out: Vec<CountRow> = Vec::new();
        let n = self.files.len();
        let mut i: usize = 0;
        proof {
            assert(fdv.take(0) =~= Seq::<FileNodeV>::empty());
            assert(concat_fold(fdv.take(0), langkey_fn(repo_name@)) == Seq::<Seq<char>>::empty());
            assert(out.deep_view() =~= spec_group_count(
                concat_fold(fdv.take(0), langkey_fn(repo_name@)),
            ));
        }
        while i < n
            invariant
                i <= n,
                n == self.files@.len(),
                fdv == self.files.deep_view(),
                out.deep_view() == spec_group_count(
                    concat_fold(fdv.take(i as int), langkey_fn(repo_name@)),
                ),
            decreases n - i,
        {
            let ghost k = i as int;
            let ghost keys_k = concat_fold(fdv.take(k), langkey_fn(repo_name@));
            proof {
                assert(fdv[k] == self.files@[k].deep_view());
                assert(fdv.take(k + 1).subrange(0, k) =~= fdv.take(k));
                assert(fdv.take(k + 1)[k] == fdv[k]);
                lemma_group_count_bound(keys_k);
                assert(keys_k.len() <= k) by {
                    lemma_lang_keys_len(fdv.take(k), langkey_fn(repo_name@));
                }
                assert forall|j: int|
                    0 <= j < out@.len() implies 1 <= (#[trigger] out.deep_view()[j]).count
                    < u64::MAX by {
                    assert(spec_group_count(keys_k)[j].count <= keys_k.len());
                }
            }
            if str_eq(self.files[i].repo.as_str(), repo_name) {
                bump(&mut out, &self.files[i].language);
                proof {
                    let lv = fdv[k].language;
                    assert(concat_fold(fdv.take(k + 1), langkey_fn(repo_name@)) =~= keys_k.push(
                        lv,
                    ));
                    assert(spec_group_count(keys_k.push(lv)) == spec_bump(
                        spec_group_count(keys_k),
                        lv,
                    )) by {
                        let ks = keys_k.push(lv);
                        assert(ks.subrange(0, ks.len() - 1) =~= keys_k);
                        assert(ks[ks.len() - 1] == lv);
                    }
                }
            }
            proof {
                assert(out.deep_view() =~= spec_group_count(
                    concat_fold(fdv.take(k + 1), langkey_fn(repo_name@)),
                ));
            }
            i = i + 1;
        }
        proof {
            assert(fdv.take(n as int) =~= fdv);
        }
        out
    }
}

/// Each CONTAINS edge contributes at most one kind key.
proof fn lemma_kind_keys_len(s: Seq<ContainsEdgeV>, f: spec_fn(ContainsEdgeV) -> Seq<Seq<char>>)
    requires
        forall|e: ContainsEdgeV| (#[trigger] f(e)).len() <= 1,
    ensures
        concat_fold(s, f).len() <= s.len(),
    decreases s.len(),
{
    if s.len() > 0 {
        lemma_kind_keys_len(s.subrange(0, s.len() - 1), f);
        assert(f(s[s.len() - 1]).len() <= 1);
    }
}

/// Each file node contributes at most one language key.
proof fn lemma_lang_keys_len(s: Seq<FileNodeV>, f: spec_fn(FileNodeV) -> Seq<Seq<char>>)
    requires
        forall|e: FileNodeV| (#[trigger] f(e)).len() <= 1,
    ensures
        concat_fold(s, f).len() <= s.len(),
    decreases s.len(),
{
    if s.len() > 0 {
        lemma_lang_keys_len(s.subrange(0, s.len() - 1), f);
        assert(f(s[s.len() - 1]).len() <= 1);
    }
}

/// A file's path, once ingested, is retrievable unchanged through the
/// file listing of its repository; and the listing of a different
/// repository is untouched, provided no file of that repository shares the
/// composed file identity.
pub proof fn lemma_file_roundtrip(
    g: GraphStoreV,
    repo: Seq<char>,
    path: Seq<char>,
    facts: ParsingResultV,
    other: Seq<char>,
)
    requires
        other != repo,
        forall|j: int|
            0 <= j < g.files.len() && (#[trigger] g.files[j]).repo == other ==> g.files[j].id
                != spec_file_id(repo, path),
    ensures
        spec_get_all_files(spec_ingest(g, repo, path, facts), repo).contains(
            FileRowV { path: path, language: spec_lang_name(facts.language) },
        ),
        spec_get_all_files(spec_ingest(g, repo, path, facts), other) == spec_get_all_files(
            g,
            other,
        ),
{
    let fv = spec_file_node(repo, path, facts);
    let h = spec_ingest(g, repo, path, facts);
    lemma_upsert_shape(g.files, file_key(), fv);
    lemma_first_key_at(g.files, file_key(), fv.id);
    let i = first_key_at(g.files, file_key(), fv.id);
    let row = FileRowV { path: path, language: spec_lang_name(facts.language) };
    lemma_concat_fold_members(h.files, filerow_fn(repo));
    let p = choose|p: int| 0 <= p < h.files.len() && #[trigger] h.files[p] == fv;
    assert(filerow_fn(repo)(h.files[p]).contains(row)) by {
        assert(filerow_fn(repo)(fv) == seq![row]);
        assert(seq![row][0] == row);
    }
    if i < 0 || i >= g.files.len() {
        assert(h.files == g.files.push(fv));
        lemma_concat_fold_push(g.files, filerow_fn(other), fv);
        assert(filerow_fn(other)(fv) =~= Seq::<FileRowV>::empty());
        assert(concat_fold(g.files, filerow_fn(other)) + Seq::<FileRowV>::empty() =~= concat_fold(
            g.files,
            filerow_fn(other),
        ));
    } else {
        assert(h.files == g.files.update(i, fv));
        assert(g.files[i].id == fv.id);
        assert(g.files[i].repo != other);
        assert(filerow_fn(other)(fv) =~= Seq::<FileRowV>::empty());
        assert(filerow_fn(other)(g.files[i]) =~= Seq::<FileRowV>::empty());
        lemma_concat_fold_update(g.files, filerow_fn(other), i, fv);
    }
}


/// One symbol summary inside a structure row.
pub struct SymbolSummary {
    pub name: String,
    pub kind: String,
    pub sig: String,
    pub doc: String,
    pub ret: String,
    pub vis: String,
    pub parent: String,
    pub params: String,
    pub decos: String,
}

/// Spec view of a `SymbolSummary`.
#[verifier::ext_equal]
pub ghost struct SymbolSummaryV {
    pub name: Seq<char>,
    pub kind: Seq<char>,
    pub sig: Seq<char>,
    pub doc: Seq<char>,
    pub ret: Seq<char>,
    pub vis: Seq<char>,
    pub parent: Seq<char>,
    pub params: Seq<char>,
    pub decos: Seq<char>,
}

impl DeepView for SymbolSummary {
    type V = SymbolSummaryV;

    open spec fn deep_view(&self) -> SymbolSummaryV {
        SymbolSummaryV {
            name: self.name@,
            kind: self.kind@,
            sig: self.sig@,
            doc: self.doc@,
            ret: self.ret@,
            vis: self.vis@,
            parent: self.parent@,
            params: self.params@,
            decos: self.decos@,
        }
    }
}

/// One row of the repository structure: a file and its symbol summaries.
pub struct StructRow {
    pub path: String,
    pub language: String,
    pub symbols: Vec<SymbolSummary>,
}

/// Spec view of a `StructRow`.
#[verifier::ext_equal]
pub ghost struct StructRowV {
    pub path: Seq<char>,
    pub language: Seq<char>,
    pub symbols: Seq<SymbolSummaryV>,
}

impl DeepView for StructRow {
    type V = StructRowV;

    open spec fn deep_view(&self) -> StructRowV {
        StructRowV {
            path: self.path@,
            language: self.language@,
            symbols: self.symbols.deep_view(),
        }
    }
}

/// What one CONTAINS edge contributes to one file's symbol summaries.
pub open spec fn summary_fn(g: GraphStoreV, fid: Seq<char>) -> spec_fn(ContainsEdgeV) -> Seq<
    SymbolSummaryV,
> {
    |e: ContainsEdgeV|
        if e.file_id == fid {
            match spec_find_symbol(g.symbols, e.symbol_id) {
                Option::Some(s) => seq![
                    SymbolSummaryV {
                        name: s.name,
                        kind: s.kind,
                        sig: s.sig,
                        doc: s.doc,
                        ret: s.ret,
                        vis: s.vis,
                        parent: s.parent,
                        params: s.params,
                        decos: s.decos,
                    },
                ],
                Option::None => Seq::empty(),
            }
        } else {
            Seq::empty()
        }
}

/// What one file contributes to the structure listing of `repo`.
pub open spec fn structrow_fn(g: GraphStoreV, repo: Seq<char>) -> spec_fn(FileNodeV) -> Seq<
    StructRowV,
> {
    |f: FileNodeV|
        if f.repo == repo {
            seq![
                StructRowV {
                    path: f.path,
                    language: f.language,
                    symbols: concat_fold(g.contains, summary_fn(g, f.id)),
                },
            ]
        } else {
            Seq::empty()
        }
}

/// The structure listing of a repository: each of its files with the
/// summaries of the symbols it contains.
pub open spec fn spec_get_repo_structure(g: GraphStoreV, repo: Seq<char>) -> Seq<StructRowV> {
    concat_fold(g.files, structrow_fn(g, repo))
}

impl GraphStore {
    /// Lists each file of a repository with its symbol summaries.
    pub fn get_repo_structure(&self, repo_name: &str) -> (r: Vec<StructRow>)
        ensures
            r.deep_view() == spec_get_repo_structure(self.deep_view(), repo_name@),
    {
        let ghost g = self.deep_view();
        let ghost fdv = self.files.deep_view();
        let mut out: Vec<StructRow> = Vec::new();
        let n = self.files.len();
        let mut i: usize = 0;
        proof {
            assert(fdv.take(0) =~= Seq::<FileNodeV>::empty());
            assert(out.deep_view() =~= concat_fold(fdv.take(0), structrow_fn(g, repo_name@)));
        }
        while i < n
            invariant
                i <= n,
                n == self.files@.len(),
                g == self.deep_view(),
                fdv == self.files.deep_view(),
                out.deep_view() == concat_fold(fdv.take(i as int), structrow_fn(g, repo_name@)),
            decreases n - i,
        {
            let ghost k = i as int;
            let ghost prev = out.deep_view();
            proof {
                assert(fdv[k] == self.files@[k].deep_view());
                assert(fdv.take(k + 1).subrange(0, k) =~= fdv.take(k));
                assert(fdv.take(k + 1)[k] == fdv[k]);
            }
            if str_eq(self.files[i].repo.as_str(), repo_name) {
                let f = &self.files[i];
                let ghost fidv = fdv[k].id;
                let ghost cdv = self.contains.deep_view();
                let mut syms: Vec<SymbolSummary> = Vec::new();
                let m = self.contains.len();
                let mut j: usize = 0;
                proof {
                    assert(cdv.take(0) =~= Seq::<ContainsEdgeV>::empty());
                    assert(syms.deep_view() =~= concat_fold(cdv.take(0), summary_fn(g, fidv)));
                }
                while j < m
                    invariant
                        j <= m,
                        m == self.contains@.len(),
                        g == self.deep_view(),
                        cdv == self.contains.deep_view(),
                        fidv == f.deep_view().id,
                        syms.deep_view() == concat_fold(cdv.take(j as int), summary_fn(g, fidv)),
                    decreases m - j,
                {
                    let ghost kj = j as int;
                    let ghost sprev = syms.deep_view();
                    proof {
                        assert(cdv[kj] == self.contains@[kj].deep_view());
                        assert(cdv.take(kj + 1).subrange(0, kj) =~= cdv.take(kj));
                        assert(cdv.take(kj + 1)[kj] == cdv[kj]);
                    }
                    if str_eq(self.contains[j].file_id.as_str(), f.id.as_str()) {
                        match find_symbol(&self.symbols, &self.contains[j].symbol_id) {
                            Some(sn) => {
                                syms.push(
                                    SymbolSummary {
                                        name: sn.name.clone(),
                                        kind: sn.kind.clone(),
                                        sig: sn.sig.clone(),
                                        doc: sn.doc.clone(),
                                        ret: sn.ret.clone(),
                                        vis: sn.vis.clone(),
                                        parent: sn.parent.clone(),
                                        params: sn.params.clone(),
                                        decos: sn.decos.clone(),
                                    },
                                );
                                proof {
                                    assert(syms.deep_view() =~~= sprev + summary_fn(g, fidv)(
                                        cdv[kj],
                                    ));
                                }
                            },
                            None => {},
                        }
                    }
                    proof {
                        assert(syms.deep_view() =~= concat_fold(
                            cdv.take(kj + 1),
                            summary_fn(g, fidv),
                        ));
                    }
                    j = j + 1;
                }
                proof {
                    assert(cdv.take(m as int) =~= cdv);
                }
                let ghost symsv = syms.deep_view();
                out.push(
                    StructRow {
                        path: f.path.clone(),
                        language: f.language.clone(),
                        symbols: syms,
                    },
                );
                proof {
                    assert(out.deep_view() =~= prev.push(
                        StructRowV { path: fdv[k].path, language: fdv[k].language, symbols: symsv },
                    ));
                }
            }
            proof {
                assert(out.deep_view() =~= concat_fold(fdv.take(k + 1), structrow_fn(g, repo_name@)));
            }
            i = i + 1;
        }
        proof {
            assert(fdv.take(n as int) =~= fdv);
        }
        out
    }
}

} // verus!
