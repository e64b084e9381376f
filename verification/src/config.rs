//! The declarative configuration: a watched `source` directory and, per
//! file extension (or the wildcard `*`), a target directory with optional
//! ignored folders.
//!
//! Building a configuration has three verified stages around the two
//! filesystem steps that a caller performs:
//!
//! 1. [`ConfigBuilder::parse`] turns the declaration text into a plain
//!    [`RawDecl`] (the TOML reading itself is trusted);
//! 2. [`ConfigBuilder::source_request`] resolves the declared `source`
//!    against the working directory; the caller canonicalizes it;
//! 3. [`plan_rules`] validates every category and resolves its paths
//!    against the canonical source; the caller creates and canonicalizes
//!    the directories and [`assemble_config`] builds the final [`Config`].

use vstd::prelude::*;

use crate::pathname::{join, spec_is_absolute, spec_join};

verus! {

/// How building a configuration can fail.
#[derive(Debug, Clone, PartialEq, Eq)]
pub enum ConfigError {
    /// The declaration is not a parsable table.
    MalformedInput,
    /// A required key is missing or has the wrong shape; the detail names it.
    InvalidStructure(String),
    /// The declared source does not canonicalize to an existing directory.
    InvalidSourcePath,
    /// Creating or canonicalizing a target or ignore directory failed;
    /// the detail is the extension key of the category that triggered it.
    FileSystemError(String),
}

/// The rule for one extension key: where matching files go, and which
/// folders suppress them.
#[derive(Debug, Clone, PartialEq)]
pub struct FileType {
    pub target: String,
    pub ignore: Option<Vec<String>>,
}

/// Mathematical value of a [`FileType`].
pub struct FileTypeView {
    pub target: Seq<char>,
    pub ignore: Option<Seq<Seq<char>>>,
}

impl View for FileType {
    type V = FileTypeView;

    open spec fn view(&self) -> FileTypeView {
        FileTypeView {
            target: self.target@,
            ignore: match self.ignore {
                Some(v) => Some(v.deep_view()),
                None => None,
            },
        }
    }
}

/// The value of a sequence of keyed entries: the value of the last entry
/// carrying the key, so that a later declaration overrides an earlier one.
pub open spec fn lookup_entry<V>(entries: Seq<(Seq<char>, V)>, k: Seq<char>) -> Option<V>
    decreases entries.len(),
{
    if entries.len() == 0 {
        None
    } else if entries.last().0 == k {
        Some(entries.last().1)
    } else {
        lookup_entry(entries.drop_last(), k)
    }
}

/// An entry whose key occurs nowhere later is the one `lookup_entry` finds.
pub proof fn lemma_lookup_entry_some<V>(entries: Seq<(Seq<char>, V)>, k: Seq<char>, i: int)
    requires
        0 <= i < entries.len(),
        entries[i].0 == k,
        forall|j: int| i < j < entries.len() ==> entries[j].0 != k,
    ensures
        lookup_entry(entries, k) == Some(entries[i].1),
    decreases entries.len(),
{
    if i == entries.len() - 1 {
    } else {
        assert(entries.last().0 != k);
        lemma_lookup_entry_some(entries.drop_last(), k, i);
    }
}

/// A key that no entry carries has no value.
pub proof fn lemma_lookup_entry_none<V>(entries: Seq<(Seq<char>, V)>, k: Seq<char>)
    requires
        forall|j: int| 0 <= j < entries.len() ==> entries[j].0 != k,
    ensures
        lookup_entry(entries, k) is None,
    decreases entries.len(),
{
    if entries.len() > 0 {
        lemma_lookup_entry_none(entries.drop_last(), k);
    }
}

/// Appending an entry makes its value the one found for its key and
/// leaves every other key's value unchanged: the last declaration wins.
pub proof fn lemma_last_declaration_wins<V>(entries: Seq<(Seq<char>, V)>, k: Seq<char>, v: V)
    ensures
        lookup_entry(entries.push((k, v)), k) == Some(v),
        forall|k2: Seq<char>|
            k2 != k ==> lookup_entry(entries.push((k, v)), k2) == lookup_entry(entries, k2),
{
    let pushed = entries.push((k, v));
    assert(pushed.last() == (k, v));
    assert forall|k2: Seq<char>| k2 != k implies lookup_entry(pushed, k2) == lookup_entry(
        entries,
        k2,
    ) by {
        assert(pushed.drop_last() =~= entries);
    }
}

/// Mathematical value of a list of keyed rules.
pub open spec fn entry_views(entries: Seq<(String, FileType)>) -> Seq<(Seq<char>, FileTypeView)> {
    Seq::new(entries.len(), |i: int| (entries[i].0@, entries[i].1@))
}

/// The keyed collection of [`FileType`] rules. A later insertion for an
/// already-present key overrides the earlier one.
#[derive(Debug, Clone, PartialEq)]
pub struct RuleMap {
    entries: Vec<(String, FileType)>,
}

impl RuleMap {
    /// The recorded entries, in insertion order.
    pub closed spec fn entries_view(&self) -> Seq<(Seq<char>, FileTypeView)> {
        entry_views(self.entries@)
    }

    /// The rule for a key: that of the last insertion carrying it.
    pub open spec fn spec_get(&self, k: Seq<char>) -> Option<FileTypeView> {
        lookup_entry(self.entries_view(), k)
    }

    /// An empty rule collection.
    pub fn new() -> (r: RuleMap)
        ensures
            r.entries_view() == Seq::<(Seq<char>, FileTypeView)>::empty(),
    {
        let r = RuleMap { entries: Vec::new() };
        proof {
            assert(r.entries_view() =~= Seq::<(Seq<char>, FileTypeView)>::empty());
        }
        r
    }

    /// Record the rule for a key, overriding any earlier rule for it.
    pub fn insert(&mut self, k: String, v: FileType)
        ensures
            final(self).entries_view() == old(self).entries_view().push((k@, v@)),
            forall|k2: Seq<char>|
                k2 != k@ ==> final(self).spec_get(k2) == old(self).spec_get(k2),
            final(self).spec_get(k@) == Some(v@),
    {
        let ghost before = self.entries_view();
        let ghost kv = (k@, v@);
        self.entries.push((k, v));
        proof {
            assert(self.entries_view() =~= before.push(kv));
            lemma_last_declaration_wins(before, kv.0, kv.1);
        }
    }

    /// How many entries have been recorded.
    pub fn len(&self) -> (n: usize)
        ensures
            n == self.entries_view().len(),
    {
        self.entries.len()
    }

    /// Fetch the effective rule for a key.
    pub fn get<'a>(&'a self, k: &str) -> (r: Option<&'a FileType>)
        ensures
            match r {
                Some(ft) => self.spec_get(k@) == Some(ft@),
                None => self.spec_get(k@) is None,
            },
    {
        let n = self.entries.len();
        let mut i: usize = n;
        while i > 0
            invariant
                i <= n,
                n == self.entries@.len(),
                forall|j: int| i <= j < n ==> self.entries_view()[j].0 != k@,
            decreases i,
        {
            i = i - 1;
            if crate::pathname::str_eq(self.entries[i].0.as_str(), k) {
                proof {
                    lemma_lookup_entry_some(self.entries_view(), k@, i as int);
                }
                return Some(&self.entries[i].1);
            }
        }
        proof {
            lemma_lookup_entry_none(self.entries_view(), k@);
        }
        None
    }
}

/// A configuration: the canonical watched root and the rules keyed by
/// extension. Immutable once built.
#[derive(Debug, Clone, PartialEq)]
pub struct Config {
    /// Root watching folder.
    pub source: String,
    /// File type rules, keyed by extension or by the wildcard `*`.
    pub filetypes: RuleMap,
}

impl Config {
    /// The effective rule for an extension: the rule declared for it, or
    /// failing that the wildcard rule.
    pub open spec fn spec_rule_for(&self, ext: Seq<char>) -> Option<FileTypeView> {
        match self.filetypes.spec_get(ext) {
            Some(ft) => Some(ft),
            None => self.filetypes.spec_get("*"@),
        }
    }

    /// Look up the rule that governs an extension, falling back to the
    /// wildcard category.
    pub fn rule_for<'a>(&'a self, ext: &str) -> (r: Option<&'a FileType>)
        ensures
            match r {
                Some(ft) => self.spec_rule_for(ext@) == Some(ft@),
                None => self.spec_rule_for(ext@) is None,
            },
    {
        match self.filetypes.get(ext) {
            Some(ft) => Some(ft),
            None => self.filetypes.get("*"),
        }
    }
}

/// One value of a parsed declaration, reduced to what the configuration
/// reads of it: either the text of a string value, or the mark that the
/// value was no string.
#[derive(Debug, Clone, PartialEq)]
pub enum RawItem {
    Text(String),
    NotText,
}

/// The declared list of ignored folders, or the mark that the value under
/// `ignore` was no list.
#[derive(Debug, Clone, PartialEq)]
pub enum RawItems {
    List(Vec<RawItem>),
    NotList,
}

/// One top-level value of a parsed declaration: its own text when it is a
/// string, and its `target` and `ignore` keys when it is a table.
#[derive(Debug, Clone, PartialEq)]
pub struct RawValue {
    /// The text of the value, when the value is a string.
    pub text: Option<String>,
    /// The value under `target`, when the value is a table carrying it.
    pub target: Option<RawItem>,
    /// The value under `ignore`, when the value is a table carrying it.
    pub ignore: Option<RawItems>,
}

/// A parsed declaration: the top-level entries, in table order.
#[derive(Debug, Clone, PartialEq)]
pub struct RawDecl {
    pub entries: Vec<(String, RawValue)>,
}

/// Mathematical value of a [`RawItem`].
pub enum RawItemView {
    Text(Seq<char>),
    NotText,
}

impl View for RawItem {
    type V = RawItemView;

    open spec fn view(&self) -> RawItemView {
        match self {
            RawItem::Text(s) => RawItemView::Text(s@),
            RawItem::NotText => RawItemView::NotText,
        }
    }
}

impl DeepView for RawItem {
    type V = RawItemView;

    open spec fn deep_view(&self) -> RawItemView {
        self.view()
    }
}

/// Mathematical value of a [`RawItems`].
pub enum RawItemsView {
    List(Seq<RawItemView>),
    NotList,
}

impl View for RawItems {
    type V = RawItemsView;

    open spec fn view(&self) -> RawItemsView {
        match self {
            RawItems::List(v) => RawItemsView::List(v.deep_view()),
            RawItems::NotList => RawItemsView::NotList,
        }
    }
}

/// Mathematical value of a [`RawValue`].
pub struct RawValueView {
    pub text: Option<Seq<char>>,
    pub target: Option<RawItemView>,
    pub ignore: Option<RawItemsView>,
}

impl View for RawValue {
    type V = RawValueView;

    open spec fn view(&self) -> RawValueView {
        RawValueView {
            text: match self.text {
                Some(ref s) => Some(s@),
                None => None,
            },
            target: match self.target {
                Some(ref i) => Some(i@),
                None => None,
            },
            ignore: match self.ignore {
                Some(ref x) => Some(x@),
                None => None,
            },
        }
    }
}

/// The entries of a declaration as a sequence of keyed values.
pub open spec fn raw_entries(d: RawDecl) -> Seq<(Seq<char>, RawValue)> {
    Seq::new(d.entries@.len(), |i: int| (d.entries@[i].0@, d.entries@[i].1))
}

/// A list of keyed declaration values as mathematical values.
pub open spec fn entry_pair_views(s: Seq<(String, RawValue)>) -> Seq<(Seq<char>, RawValueView)> {
    Seq::new(s.len(), |i: int| (s[i].0@, s[i].1@))
}

/// The entries of a declaration as mathematical values.
pub open spec fn raw_entries_view(d: RawDecl) -> Seq<(Seq<char>, RawValueView)> {
    entry_pair_views(d.entries@)
}

/// The value a declaration gives a top-level key, the last one winning.
pub fn raw_get<'a>(d: &'a RawDecl, k: &str) -> (r: Option<&'a RawValue>)
    ensures
        match r {
            Some(rv) => lookup_entry(raw_entries(*d), k@) == Some(*rv),
            None => lookup_entry(raw_entries(*d), k@) is None,
        },
{
    let n = d.entries.len();
    let mut i: usize = n;
    while i > 0
        invariant
            i <= n,
            n == d.entries@.len(),
            forall|j: int| i <= j < n ==> raw_entries(*d)[j].0 != k@,
        decreases i,
    {
        i = i - 1;
        if crate::pathname::str_eq(d.entries[i].0.as_str(), k) {
            proof {
                lemma_lookup_entry_some(raw_entries(*d), k@, i as int);
            }
            return Some(&d.entries[i].1);
        }
    }
    proof {
        lemma_lookup_entry_none(raw_entries(*d), k@);
    }
    None
}

/// The root the declaration asks to watch: the `source` text, resolved
/// against the working directory when one is given.
pub open spec fn spec_root_request(s: Seq<char>, wd: Option<Seq<char>>) -> Seq<char> {
    match wd {
        Some(w) => spec_join(w, s),
        None => s,
    }
}

/// However the declaration reached it, an absolute `source` resolves to
/// itself, a relative one to the working directory with it; without a
/// working directory every `source` stands as declared.
pub proof fn lemma_root_request(s: Seq<char>, wd: Option<Seq<char>>)
    ensures
        spec_is_absolute(s) ==> spec_root_request(s, wd) == s,
        wd is None ==> spec_root_request(s, wd) == s,
        (!spec_is_absolute(s) && wd is Some) ==> spec_root_request(s, wd) == spec_join(
            wd.unwrap(),
            s,
        ),
{
}

/// Read the declared `source` and resolve it against the working
/// directory. The result still awaits canonicalization by the caller;
/// only a missing or non-string `source` is rejected here.
pub fn resolve_source(d: &RawDecl, wd: &Option<String>) -> (r: Result<String, ConfigError>)
    ensures
        match lookup_entry(raw_entries(*d), "source"@) {
            Some(rv) => match rv.text {
                Some(s) => r matches Ok(root) && root@ == spec_root_request(s@, wd.deep_view()),
                None => r matches Err(ConfigError::InvalidStructure(m)) && m@ == "source"@,
            },
            None => r matches Err(ConfigError::InvalidStructure(m)) && m@ == "source"@,
        },
{
    match raw_get(d, "source") {
        Some(rv) => match &rv.text {
            Some(s) => match wd {
                Some(w) => Ok(join(w.as_str(), s.as_str())),
                None => Ok(s.clone()),
            },
            None => Err(ConfigError::InvalidStructure("source".to_owned())),
        },
        None => Err(ConfigError::InvalidStructure("source".to_owned())),
    }
}

/// The texts of the declared ignore entries, when every entry is text.
pub open spec fn spec_items_texts(items: Seq<RawItem>) -> Option<Seq<Seq<char>>>
    decreases items.len(),
{
    if items.len() == 0 {
        Some(Seq::empty())
    } else {
        match spec_items_texts(items.drop_last()) {
            None => None,
            Some(rest) => match items.last() {
                RawItem::NotText => None,
                RawItem::Text(s) => Some(rest.push(s@)),
            },
        }
    }
}

/// The rule a category value resolves to: its target and ignore paths
/// joined onto the source directory, or the detail of the structural
/// fault that rejects it.
pub open spec fn spec_rule(rv: RawValue, source: Seq<char>) -> Result<FileTypeView, Seq<char>> {
    match rv.target {
        None => Err("target missing"@),
        Some(RawItem::NotText) => Err("target not a string"@),
        Some(RawItem::Text(t)) => match rv.ignore {
            None => Ok(FileTypeView { target: spec_join(source, t@), ignore: None }),
            Some(RawItems::NotList) => Err("ignore not a list of strings"@),
            Some(RawItems::List(items)) => match spec_items_texts(items@) {
                None => Err("ignore not a list of strings"@),
                Some(texts) => Ok(
                    FileTypeView {
                        target: spec_join(source, t@),
                        ignore: Some(texts.map_values(|s: Seq<char>| spec_join(source, s))),
                    },
                ),
            },
        },
    }
}

/// Resolve one category value against the source directory.
#[verifier::loop_isolation(false)]
fn rule_of(rv: &RawValue, source: &str) -> (r: Result<FileType, ConfigError>)
    ensures
        match spec_rule(*rv, source@) {
            Ok(ft) => r matches Ok(f) && f@ == ft,
            Err(m) => r matches Err(ConfigError::InvalidStructure(dt)) && dt@ == m,
        },
{
    let target: String = match &rv.target {
        None => {
            return Err(ConfigError::InvalidStructure("target missing".to_owned()));
        },
        Some(RawItem::NotText) => {
            return Err(ConfigError::InvalidStructure("target not a string".to_owned()));
        },
        Some(RawItem::Text(t)) => join(source, t.as_str()),
    };
    let ignore: Option<Vec<String>> = match &rv.ignore {
        None => None,
        Some(RawItems::NotList) => {
            return Err(ConfigError::InvalidStructure("ignore not a list of strings".to_owned()));
        },
        Some(RawItems::List(items)) => {
            let n = items.len();
            let mut out: Vec<String> = Vec::new();
            let mut i: usize = 0;
            while i < n
                invariant
                    i <= n,
                    n == items@.len(),
                    spec_items_texts(items@.take(i as int)) matches Some(ts) && out.deep_view()
                        == ts.map_values(|s: Seq<char>| spec_join(source@, s)),
                decreases n - i,
            {
                let ghost prefix = items@.take(i as int);
                match &items[i] {
                    RawItem::NotText => {
                        proof {
                            lemma_items_texts_prefix_not_text(items@, i as int);
                        }
                        return Err(
                            ConfigError::InvalidStructure("ignore not a list of strings".to_owned()),
                        );
                    },
                    RawItem::Text(s) => {
                        out.push(join(source, s.as_str()));
                        proof {
                            let next = items@.take(i as int + 1);
                            assert(next.drop_last() =~= prefix);
                            assert(next.last() == items@[i as int]);
                            let ts = spec_items_texts(prefix)->Some_0;
                            let f = |q: Seq<char>| spec_join(source@, q);
                            assert(out.deep_view() =~= ts.map_values(f).push(f(s@)));
                            assert(ts.push(s@).map_values(f) =~= ts.map_values(f).push(f(s@)));
                        }
                    },
                }
                i = i + 1;
            }
            proof {
                assert(items@.take(n as int) =~= items@);
            }
            Some(out)
        },
    };
    Ok(FileType { target, ignore })
}

/// When a prefix of the items is all text but the next item is not, the
/// whole list resolves to no texts.
proof fn lemma_items_texts_prefix_not_text(items: Seq<RawItem>, i: int)
    requires
        0 <= i < items.len(),
        items[i] matches RawItem::NotText,
    ensures
        spec_items_texts(items) is None,
    decreases items.len(),
{
    if items.len() > 0 {
        if i == items.len() - 1 {
        } else {
            lemma_items_texts_prefix_not_text(items.drop_last(), i);
        }
    }
}

/// The plan a declaration resolves to: every non-`source` entry, in
/// declaration order, with its paths joined onto the source directory;
/// or the detail of the first structural fault.
pub open spec fn spec_plan(entries: Seq<(Seq<char>, RawValue)>, source: Seq<char>) -> Result<
    Seq<(Seq<char>, FileTypeView)>,
    Seq<char>,
>
    decreases entries.len(),
{
    if entries.len() == 0 {
        Ok(Seq::empty())
    } else if entries[0].0 == "source"@ {
        spec_plan(entries.drop_first(), source)
    } else {
        match spec_rule(entries[0].1, source) {
            Err(m) => Err(m),
            Ok(ft) => match spec_plan(entries.drop_first(), source) {
                Err(m) => Err(m),
                Ok(rest) => Ok(seq![(entries[0].0, ft)] + rest),
            },
        }
    }
}

/// A declaration resolves to a plan exactly when every category entry is
/// well-shaped; nothing else — in particular no state of the filesystem —
/// decides it, so a missing target or ignore directory never fails the
/// resolution.
pub proof fn lemma_plan_well_shaped(entries: Seq<(Seq<char>, RawValue)>, source: Seq<char>)
    ensures
        (spec_plan(entries, source) is Ok) <==> (forall|j: int|
            0 <= j < entries.len() && entries[j].0 != "source"@ ==> (#[trigger] spec_rule(
                entries[j].1,
                source,
            )) is Ok),
    decreases entries.len(),
{
    if entries.len() == 0 {
    } else {
        let rest = entries.drop_first();
        lemma_plan_well_shaped(rest, source);
        assert(forall|j: int| 0 <= j < rest.len() ==> rest[j] == entries[j + 1]);
        if spec_plan(entries, source) is Ok {
            assert forall|j: int|
                0 <= j < entries.len() && entries[j].0 != "source"@ implies (#[trigger] spec_rule(
                entries[j].1,
                source,
            )) is Ok by {
                if j > 0 {
                    assert(rest[j - 1] == entries[j]);
                }
            }
        } else {
            if entries[0].0 != "source"@ && !(spec_rule(entries[0].1, source) is Ok) {
            } else {
                assert(!(spec_plan(rest, source) is Ok));
                let j0 = choose|j: int|
                    0 <= j < rest.len() && rest[j].0 != "source"@ && !((#[trigger] spec_rule(
                        rest[j].1,
                        source,
                    )) is Ok);
                assert(entries[j0 + 1] == rest[j0]);
                assert(!(spec_rule(entries[j0 + 1].1, source) is Ok));
            }
        }
    }
}

/// Validate every category of the declaration and resolve its paths
/// against the canonical source directory. The returned rules still name
/// directories that the caller must create and canonicalize before
/// [`assemble_config`]; a structural fault in any category rejects the
/// whole declaration.
#[verifier::loop_isolation(false)]
pub fn plan_rules(d: &RawDecl, source: &str) -> (r: Result<Vec<(String, FileType)>, ConfigError>)
    ensures
        match spec_plan(raw_entries(*d), source@) {
            Ok(plan) => r matches Ok(v) && entry_views(v@) == plan,
            Err(m) => r matches Err(ConfigError::InvalidStructure(dt)) && dt@ == m,
        },
{
    let ghost whole = raw_entries(*d);
    proof {
        assert(whole.skip(0) =~= whole);
    }
    let n = d.entries.len();
    let mut out: Vec<(String, FileType)> = Vec::new();
    let mut i: usize = 0;
    while i < n
        invariant
            i <= n,
            n == d.entries@.len(),
            whole == raw_entries(*d),
            spec_plan(whole, source@) == (match spec_plan(whole.skip(i as int), source@) {
                Ok(rest) => Ok::<_, Seq<char>>(entry_views(out@) + rest),
                Err(m) => Err(m),
            }),
        decreases n - i,
    {
        let ghost tail = whole.skip(i as int);
        proof {
            assert(tail.drop_first() =~= whole.skip(i as int + 1));
            assert(tail[0] == whole[i as int]);
        }
        let key = &d.entries[i].0;
        if !crate::pathname::str_eq(key.as_str(), "source") {
            match rule_of(&d.entries[i].1, source) {
                Err(e) => {
                    return Err(e);
                },
                Ok(ft) => {
                    let ghost before = out@;
                    out.push((key.clone(), ft));
                    proof {
                        assert(entry_views(out@) =~= entry_views(before).push(
                            (key@, spec_rule(tail[0].1, source@)->Ok_0),
                        ));
                        assert forall|rest: Seq<(Seq<char>, FileTypeView)>|
                            true implies entry_views(before) + (seq![
                            (tail[0].0, spec_rule(tail[0].1, source@)->Ok_0)] + rest) =~= entry_views(
                            out@,
                        ) + rest by {}
                    }
                },
            }
        }
        i = i + 1;
    }
    proof {
        assert(whole.skip(n as int) =~= Seq::<(Seq<char>, RawValue)>::empty());
        if spec_plan(whole, source@) is Ok {
            assert(entry_views(out@) + Seq::<(Seq<char>, FileTypeView)>::empty() =~= entry_views(
                out@,
            ));
        }
    }
    Ok(out)
}

/// Build the final configuration from the canonical source and the
/// canonicalized rules, in declaration order.
#[verifier::loop_isolation(false)]
pub fn assemble_config(source: String, rules: Vec<(String, FileType)>) -> (r: Config)
    ensures
        r.source == source,
        r.filetypes.entries_view() == entry_views(rules@),
{
    let ghost orig = rules@;
    let mut rules = rules;
    let mut m = RuleMap::new();
    let ghost k: int = 0;
    proof {
        assert(rules@ =~= orig.skip(0));
        assert(m.entries_view() =~= entry_views(orig.take(0)));
    }
    while rules.len() > 0
        invariant
            0 <= k <= orig.len(),
            rules@ == orig.skip(k),
            m.entries_view() == entry_views(orig.take(k)),
        decreases rules@.len(),
    {
        let (key, ft) = rules.remove(0);
        m.insert(key, ft);
        proof {
            assert(orig.skip(k).drop_first() =~= orig.skip(k + 1));
            assert(m.entries_view() =~= entry_views(orig.take(k + 1))) by {
                assert(orig.take(k + 1).drop_last() =~= orig.take(k));
                assert(entry_views(orig.take(k + 1)) =~= entry_views(orig.take(k)).push(
                    (orig[k].0@, orig[k].1@),
                ));
            }
            k = k + 1;
        }
    }
    proof {
        assert(orig.take(k) =~= orig);
    }
    Config { source, filetypes: m }
}

#[verifier::external_type_specification]
#[verifier::external_body]
pub struct ExTomlValue(toml::Value);

#[verifier::external_type_specification]
#[verifier::external_body]
pub struct ExTomlDeError(toml::de::Error);

/// Whether toml::from_str accepts the text as a TOML document. The parse
/// depends on the text alone.
pub uninterp spec fn spec_toml_parses(s: Seq<char>) -> bool;

/// The document toml::from_str parses the text to; meaningful only where
/// [`spec_toml_parses`] holds.
pub uninterp spec fn spec_toml_doc(s: Seq<char>) -> toml::Value;

/// The text a toml::Value carries when it is a string, per
/// toml::Value::as_str.
pub uninterp spec fn spec_value_text(v: toml::Value) -> Option<Seq<char>>;

/// The keyed entries a toml::Value holds when it is a table, in the
/// order toml's map iteration hands them out.
pub uninterp spec fn spec_value_entries(v: toml::Value) -> Option<Seq<(Seq<char>, toml::Value)>>;

/// The value a toml::Value gives a key, per toml::Value::get: absent on
/// non-tables and on tables without the key.
pub uninterp spec fn spec_value_get(v: toml::Value, key: Seq<char>) -> Option<toml::Value>;

/// The items a toml::Value holds when it is an array, per
/// toml::Value::as_array.
pub uninterp spec fn spec_value_items(v: toml::Value) -> Option<Seq<toml::Value>>;

/// Relies on toml::from_str: parses the text as a TOML document; the
/// result is a function of the text alone.
#[verifier::external_body]
fn parse_toml(s: &str) -> (r: Result<toml::Value, toml::de::Error>)
    ensures
        match r {
            Ok(v) => spec_toml_parses(s@) && v == spec_toml_doc(s@),
            Err(_) => !spec_toml_parses(s@),
        },
{
    toml::from_str::<toml::Value>(s)
}

/// Relies on toml::Value: a value is a table exactly when it carries
/// key-value entries; they are handed out in table order.
#[verifier::external_body]
fn value_table_entries(v: &toml::Value) -> (r: Option<Vec<(String, toml::Value)>>)
    ensures
        match r {
            Some(es) => spec_value_entries(*v) matches Some(m) && es@.len() == m.len() && (forall|
                i: int,
            |
                0 <= i < m.len() ==> (#[trigger] es@[i]).0@ == m[i].0 && es@[i].1 == m[i].1),
            None => spec_value_entries(*v) is None,
        },
{
    match v {
        toml::Value::Table(t) => Some(t.iter().map(|(k, x)| (k.clone(), x.clone())).collect()),
        _ => None,
    }
}

/// Relies on toml::Value::as_str: the text of a value that is a string.
#[verifier::external_body]
fn value_as_text(v: &toml::Value) -> (r: Option<String>)
    ensures
        match r {
            Some(t) => spec_value_text(*v) == Some(t@),
            None => spec_value_text(*v) is None,
        },
{
    v.as_str().map(|s| s.to_string())
}

/// Relies on toml::Value::get: the value a table gives a key; absent on
/// non-tables and on tables without the key.
#[verifier::external_body]
fn value_get<'a>(v: &'a toml::Value, key: &str) -> (r: Option<&'a toml::Value>)
    ensures
        match r {
            Some(sub) => spec_value_get(*v, key@) == Some(*sub),
            None => spec_value_get(*v, key@) is None,
        },
{
    v.get(key)
}

/// Relies on toml::Value::as_array: the items of a value that is an array.
#[verifier::external_body]
fn value_items(v: &toml::Value) -> (r: Option<Vec<toml::Value>>)
    ensures
        match r {
            Some(items) => spec_value_items(*v) matches Some(m) && items@.len() == m.len() && (
            forall|i: int| 0 <= i < m.len() ==> #[trigger] items@[i] == m[i]),
            None => spec_value_items(*v) is None,
        },
{
    v.as_array().cloned()
}

/// What the configuration reads off one parsed value: its text, or the
/// mark that it was no string.
pub open spec fn spec_item_of(v: toml::Value) -> RawItemView {
    match spec_value_text(v) {
        Some(t) => RawItemView::Text(t),
        None => RawItemView::NotText,
    }
}

/// What the configuration reads off one top-level parsed value: its own
/// text, and its `target` and `ignore` entries.
pub open spec fn spec_rawvalue_of(v: toml::Value) -> RawValueView {
    RawValueView {
        text: spec_value_text(v),
        target: match spec_value_get(v, "target"@) {
            Some(t) => Some(spec_item_of(t)),
            None => None,
        },
        ignore: match spec_value_get(v, "ignore"@) {
            None => None,
            Some(a) => Some(
                match spec_value_items(a) {
                    None => RawItemsView::NotList,
                    Some(items) => RawItemsView::List(
                        items.map_values(|x: toml::Value| spec_item_of(x)),
                    ),
                },
            ),
        },
    }
}

/// What a declaration text parses to: its top-level entries reduced to
/// what the configuration reads, or nothing where the text does not
/// parse or its top level is no table.
pub open spec fn spec_decl_of(s: Seq<char>) -> Option<Seq<(Seq<char>, RawValueView)>> {
    if !spec_toml_parses(s) {
        None
    } else {
        match spec_value_entries(spec_toml_doc(s)) {
            None => None,
            Some(entries) => Some(
                entries.map_values(|e: (Seq<char>, toml::Value)| (e.0, spec_rawvalue_of(e.1))),
            ),
        }
    }
}

/// Reduce one parsed value to the mark the configuration reads: its text,
/// or the mark that it was no string.
fn raw_item_of(v: &toml::Value) -> (r: RawItem)
    ensures
        r@ == spec_item_of(*v),
{
    match value_as_text(v) {
        Some(s) => RawItem::Text(s),
        None => RawItem::NotText,
    }
}

/// Reduce one parsed top-level value to what the configuration reads of
/// it: its own text, and its `target` and `ignore` entries.
#[verifier::loop_isolation(false)]
fn raw_value_of(v: &toml::Value) -> (r: RawValue)
    ensures
        r@ == spec_rawvalue_of(*v),
{
    let text = value_as_text(v);
    let target = match value_get(v, "target") {
        Some(t) => Some(raw_item_of(t)),
        None => None,
    };
    let ignore = match value_get(v, "ignore") {
        None => None,
        Some(a) => match value_items(a) {
            None => Some(RawItems::NotList),
            Some(items) => {
                let ghost m = spec_value_items(spec_value_get(*v, "ignore"@)->Some_0)->Some_0;
                let ghost f = |x: toml::Value| spec_item_of(x);
                let n = items.len();
                let mut out: Vec<RawItem> = Vec::new();
                let mut i: usize = 0;
                proof {
                    assert(out.deep_view() =~= m.take(0).map_values(f));
                }
                while i < n
                    invariant
                        i <= n,
                        out.deep_view() == m.take(i as int).map_values(f),
                    decreases n - i,
                {
                    out.push(raw_item_of(&items[i]));
                    proof {
                        assert(items@[i as int] == m[i as int]);
                        assert(out.deep_view() =~= m.take(i as int + 1).map_values(f)) by {
                            assert(m.take(i as int + 1).drop_last() =~= m.take(i as int));
                            assert(m.take(i as int + 1).map_values(f) =~= m.take(
                                i as int,
                            ).map_values(f).push(f(m[i as int])));
                        }
                    }
                    i = i + 1;
                }
                proof {
                    assert(m.take(n as int) =~= m);
                }
                Some(RawItems::List(out))
            },
        },
    };
    let r = RawValue { text, target, ignore };
    proof {
        assert(r@ == spec_rawvalue_of(*v));
    }
    r
}

/// Parse a declaration into its plain entries. The TOML reading itself
/// is trusted through named results: the call succeeds exactly where the
/// text parses as a table, the returned entries are [`spec_decl_of`] the
/// text, and a rejected text yields [`ConfigError::MalformedInput`], the
/// only error this stage can produce.
#[verifier::loop_isolation(false)]
pub fn parse_declaration(s: &str) -> (r: Result<RawDecl, ConfigError>)
    ensures
        r is Err ==> r matches Err(ConfigError::MalformedInput),
        (r is Ok) == (spec_decl_of(s@) is Some),
        r matches Ok(d) ==> Some(raw_entries_view(d)) == spec_decl_of(s@),
{
    match parse_toml(s) {
        Err(_) => Err(ConfigError::MalformedInput),
        Ok(v) => match value_table_entries(&v) {
            None => Err(ConfigError::MalformedInput),
            Some(entries) => {
                let ghost m = spec_value_entries(spec_toml_doc(s@))->Some_0;
                let ghost g = |e: (Seq<char>, toml::Value)| (e.0, spec_rawvalue_of(e.1));
                let ghost total = m.len();
                let ghost k: int = 0;
                let mut entries = entries;
                let mut out: Vec<(String, RawValue)> = Vec::new();
                proof {
                    assert(entry_pair_views(out@) =~= m.take(0).map_values(g));
                }
                while entries.len() > 0
                    invariant
                        0 <= k <= total,
                        total == m.len(),
                        entries@.len() == total - k,
                        forall|j: int|
                            0 <= j < entries@.len() ==> (#[trigger] entries@[j]).0@ == m[k + j].0
                                && entries@[j].1 == m[k + j].1,
                        entry_pair_views(out@) == m.take(k).map_values(g),
                    decreases entries@.len(),
                {
                    let ghost before = out@;
                    let (key, val) = entries.remove(0);
                    let rv = raw_value_of(&val);
                    out.push((key, rv));
                    proof {
                        assert(entry_pair_views(out@) =~= m.take(k + 1).map_values(g)) by {
                            assert(entry_pair_views(out@) =~= entry_pair_views(before).push(
                                (m[k].0, spec_rawvalue_of(m[k].1)),
                            ));
                            assert(m.take(k + 1).drop_last() =~= m.take(k));
                            assert(m.take(k + 1).map_values(g) =~= m.take(k).map_values(g).push(
                                g(m[k]),
                            ));
                        }
                        k = k + 1;
                    }
                }
                proof {
                    assert(m.take(k) =~= m);
                }
                Ok(RawDecl { entries: out })
            },
        },
    }
}

/// Builds a [`Config`] from a textual declaration and a working
/// directory. The parsing and resolution stages live here; the caller
/// performs the directory creation and canonicalization between them.
pub struct ConfigBuilder {
    working_directory: Option<String>,
    toml: Option<String>,
}

impl ConfigBuilder {
    /// The declaration text set so far.
    pub closed spec fn spec_toml(&self) -> Option<Seq<char>> {
        match self.toml {
            Some(ref t) => Some(t@),
            None => None,
        }
    }

    /// The working directory set so far.
    pub closed spec fn spec_working_dir(&self) -> Option<Seq<char>> {
        match self.working_directory {
            Some(ref w) => Some(w@),
            None => None,
        }
    }

    /// A builder with no declaration and no working directory.
    pub fn new() -> (r: Self)
        ensures
            r.spec_toml() is None,
            r.spec_working_dir() is None,
    {
        ConfigBuilder { working_directory: None, toml: None }
    }

    /// Sets the declaration text.
    pub fn toml(&mut self, t: &str)
        ensures
            final(self).spec_toml() == Some(t@),
            final(self).spec_working_dir() == old(self).spec_working_dir(),
    {
        self.toml = Some(t.to_owned());
    }

    /// Sets the working directory against which a relative `source` is
    /// resolved. A declaration with an absolute `source` is unaffected.
    pub fn working_dir(&mut self, wd: &str)
        ensures
            final(self).spec_working_dir() == Some(wd@),
            final(self).spec_toml() == old(self).spec_toml(),
    {
        self.working_directory = Some(wd.to_owned());
    }

    /// The declaration text the builder parses: the text that was set,
    /// or the default declaration watching the current directory.
    pub open spec fn spec_effective_decl(&self) -> Seq<char> {
        match self.spec_toml() {
            Some(t) => t,
            None => "source = \".\""@,
        }
    }

    /// Parse the declaration text, or the default declaration watching
    /// the current directory when none was set: the parse succeeds
    /// exactly where the effective text parses as a table, the entries
    /// are [`spec_decl_of`] that text, and the only error this stage can
    /// produce is [`ConfigError::MalformedInput`].
    pub fn parse(&self) -> (r: Result<RawDecl, ConfigError>)
        ensures
            r is Err ==> r matches Err(ConfigError::MalformedInput),
            (r is Ok) == (spec_decl_of(self.spec_effective_decl()) is Some),
            r matches Ok(d) ==> Some(raw_entries_view(d)) == spec_decl_of(
                self.spec_effective_decl(),
            ),
    {
        match &self.toml {
            Some(t) => parse_declaration(t.as_str()),
            None => parse_declaration("source = \".\""),
        }
    }

    /// Resolve the declared `source` against the working directory set on
    /// this builder; see [`resolve_source`].
    pub fn source_request(&self, d: &RawDecl) -> (r: Result<String, ConfigError>)
        ensures
            match lookup_entry(raw_entries(*d), "source"@) {
                Some(rv) => match rv.text {
                    Some(s) => r matches Ok(root) && root@ == spec_root_request(
                        s@,
                        self.spec_working_dir(),
                    ),
                    None => r matches Err(ConfigError::InvalidStructure(m)) && m@ == "source"@,
                },
                None => r matches Err(ConfigError::InvalidStructure(m)) && m@ == "source"@,
            },
    {
        resolve_source(d, &self.working_directory)
    }
}

} // verus!

