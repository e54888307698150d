//! The manifest scanner: constants declared in the manifest, the key/value
//! declarations that name the application, its toolchain version and its
//! build mode, and the record that they make up.
use vstd::prelude::*;
use crate::version::opt_string_view;

verus! {

/// The (name, literal) pairs of the constant declarations `@name "literal"`
/// in a text, in the order in which they appear.
pub uninterp spec fn superglobal_declarations(text: Seq<char>) -> Seq<(Seq<char>, Seq<char>)>;

/// The (key, value) pairs of the declarations `key: value,` in a text, in the
/// order in which they appear.
pub uninterp spec fn property_declarations(text: Seq<char>) -> Seq<(Seq<char>, Seq<char>)>;

/// The view of a sequence of string pairs.
pub open spec fn pairs_view(v: Seq<(String, String)>) -> Seq<(Seq<char>, Seq<char>)> {
    v.map_values(|p: (String, String)| (p.0@, p.1@))
}

/// The table that a sequence of (name, literal) declarations makes: a later
/// declaration of a name overwrites an earlier one.
pub open spec fn table_of(decls: Seq<(Seq<char>, Seq<char>)>) -> Map<Seq<char>, Seq<char>>
    decreases decls.len(),
{
    if decls.len() == 0 {
        Map::empty()
    } else {
        table_of(decls.drop_last()).insert(decls.last().0, decls.last().1)
    }
}

/// Relies on regex's `Regex::captures_iter` with the pattern `@(.+)\s"(.+)"`:
/// the two groups of each match, left to right, which depend on the text alone.
#[verifier::external_body]
fn superglobal_captures(text: &str) -> (r: Vec<(String, String)>)
    ensures
        pairs_view(r@) == superglobal_declarations(text@),
{
    let re = regex::Regex::new("@(.+)\\s\"(.+)\"").unwrap();
    re.captures_iter(text).map(|c| (c[1].to_string(), c[2].to_string())).collect()
}

/// Relies on regex's `Regex::captures_iter` with the multi-line pattern
/// `([^\s]+):\s([^,]+)(?:,|$)`: the two groups of each match, left to right,
/// which depend on the text alone.
#[verifier::external_body]
fn property_captures(text: &str) -> (r: Vec<(String, String)>)
    ensures
        pairs_view(r@) == property_declarations(text@),
{
    let re = regex::Regex::new("(?m)([^\\s]+):\\s([^,]+)(?:,|$)").unwrap();
    re.captures_iter(text).map(|c| (c[1].to_string(), c[2].to_string())).collect()
}

/// The constants declared in a manifest, by name. The entries are kept in
/// the order of declaration; the last one of a name is the one that counts.
pub struct Superglobals {
    pub entries: Vec<(String, String)>,
}

impl View for Superglobals {
    type V = Map<Seq<char>, Seq<char>>;

    open spec fn view(&self) -> Map<Seq<char>, Seq<char>> {
        table_of(pairs_view(self.entries@))
    }
}

/// Where no declaration at or after `i` names `k`, the table holds for `k`
/// what the declarations before `i` gave it.
proof fn lemma_table_skip(decls: Seq<(Seq<char>, Seq<char>)>, i: int, k: Seq<char>)
    requires
        0 <= i <= decls.len(),
        forall|j: int| i <= j < decls.len() ==> (#[trigger] decls[j]).0 != k,
    ensures
        table_of(decls).contains_key(k) == table_of(decls.take(i)).contains_key(k),
        table_of(decls).contains_key(k) ==> table_of(decls)[k] == table_of(decls.take(i))[k],
    decreases decls.len(),
{
    if i == decls.len() {
        assert(decls.take(i) =~= decls);
    } else {
        let rest = decls.drop_last();
        assert(decls.last() == decls[decls.len() - 1]);
        lemma_table_skip(rest, i, k);
        assert(rest.take(i) =~= decls.take(i));
    }
}

/// The last declaration of a name gives the table's value for it.
proof fn lemma_table_last(decls: Seq<(Seq<char>, Seq<char>)>, i: int)
    requires
        0 <= i < decls.len(),
        forall|j: int| i < j < decls.len() ==> (#[trigger] decls[j]).0 != decls[i].0,
    ensures
        table_of(decls).contains_key(decls[i].0),
        table_of(decls)[decls[i].0] == decls[i].1,
{
    lemma_table_skip(decls, i + 1, decls[i].0);
    let pre = decls.take(i + 1);
    assert(pre.drop_last() =~= decls.take(i));
    assert(pre.last() == decls[i]);
}

impl Superglobals {
    /// An empty table.
    pub fn new() -> (r: Superglobals)
        ensures
            r@ == Map::<Seq<char>, Seq<char>>::empty(),
    {
        Superglobals { entries: Vec::new() }
    }

    /// Declares `name` as `value`, overwriting an earlier declaration.
    pub fn insert(&mut self, name: String, value: String)
        ensures
            final(self)@ == old(self)@.insert(name@, value@),
    {
        let ghost before = pairs_view(self.entries@);
        self.entries.push((name, value));
        proof {
            let after = pairs_view(self.entries@);
            assert(after.drop_last() =~= before);
            assert(after.last() == (name@, value@));
        }
    }

    /// The literal declared for `name`, if any.
    pub fn get(&self, name: &String) -> (r: Option<String>)
        ensures
            match r {
                Some(v) => self@.contains_key(name@) && self@[name@] == v@,
                None => !self@.contains_key(name@),
            },
    {
        let ghost decls = pairs_view(self.entries@);
        let mut i: usize = self.entries.len();
        while i > 0
            invariant
                0 <= i <= self.entries.len(),
                decls == pairs_view(self.entries@),
                forall|j: int| i <= j < decls.len() ==> (#[trigger] decls[j]).0 != name@,
            decreases i,
        {
            if self.entries[i - 1].0 == *name {
                proof {
                    lemma_table_last(decls, i - 1);
                    lemma_table_skip(decls, i as int, name@);
                }
                return Some(self.entries[i - 1].1.clone());
            }
            assert(decls[i - 1].0 == self.entries@[i - 1].0@);
            i = i - 1;
        }
        proof {
            lemma_table_skip(decls, 0, name@);
            assert(decls.take(0) =~= Seq::<(Seq<char>, Seq<char>)>::empty());
        }
        None
    }

    /// The table that `decls`, in order, make.
    pub fn from_declarations(decls: &Vec<(String, String)>) -> (r: Superglobals)
        ensures
            r@ == table_of(pairs_view(decls@)),
    {
        let mut table = Superglobals::new();
        let mut i: usize = 0;
        while i < decls.len()
            invariant
                0 <= i <= decls.len(),
                table@ == table_of(pairs_view(decls@).take(i as int)),
            decreases decls.len() - i,
        {
            let ghost pv = pairs_view(decls@);
            table.insert(decls[i].0.clone(), decls[i].1.clone());
            proof {
                assert(pv.take(i + 1).drop_last() =~= pv.take(i as int));
                assert(pv.take(i + 1).last() == pv[i as int]);
            }
            i = i + 1;
        }
        assert(pairs_view(decls@).take(decls.len() as int) =~= pairs_view(decls@));
        table
    }
}


/// What a manifest declares: the application's name, the toolchain version
/// expression, and whether the project builds a single executable.
#[derive(Debug, Clone)]
pub struct MixProject {
    pub app_name: Option<String>,
    pub elixir_version: Option<String>,
    pub is_escript: bool,
}

/// The mathematical value of a `MixProject`.
pub struct MixProjectModel {
    pub app_name: Option<Seq<char>>,
    pub elixir_version: Option<Seq<char>>,
    pub is_escript: bool,
}

impl View for MixProject {
    type V = MixProjectModel;

    open spec fn view(&self) -> MixProjectModel {
        MixProjectModel {
            app_name: opt_string_view(self.app_name),
            elixir_version: opt_string_view(self.elixir_version),
            is_escript: self.is_escript,
        }
    }
}

/// A declared value, replaced by the literal of the constant that it names,
/// if it names one.
pub open spec fn resolve_superglobal(table: Map<Seq<char>, Seq<char>>, value: Seq<char>) -> Seq<char> {
    if table.contains_key(value) {
        table[value]
    } else {
        value
    }
}

/// The record of a manifest that declares nothing.
pub open spec fn empty_project() -> MixProjectModel {
    MixProjectModel { app_name: None, elixir_version: None, is_escript: false }
}

/// The record after one more declaration `key: value`: `app` sets the name,
/// `elixir` the version expression, `escript` the build mode whatever its
/// value; any other key changes nothing.
pub open spec fn apply_declaration(
    m: MixProjectModel,
    table: Map<Seq<char>, Seq<char>>,
    key: Seq<char>,
    value: Seq<char>,
) -> MixProjectModel {
    let v = resolve_superglobal(table, value);
    if key == "app"@ {
        MixProjectModel { app_name: Some(v), elixir_version: m.elixir_version, is_escript: m.is_escript }
    } else if key == "elixir"@ {
        MixProjectModel { app_name: m.app_name, elixir_version: Some(v), is_escript: m.is_escript }
    } else if key == "escript"@ {
        MixProjectModel { app_name: m.app_name, elixir_version: m.elixir_version, is_escript: true }
    } else {
        m
    }
}

/// The record that the declarations `props`, in order, make: the last
/// declaration of a key wins.
pub open spec fn project_of(
    table: Map<Seq<char>, Seq<char>>,
    props: Seq<(Seq<char>, Seq<char>)>,
) -> MixProjectModel
    decreases props.len(),
{
    if props.len() == 0 {
        empty_project()
    } else {
        apply_declaration(project_of(table, props.drop_last()), table, props.last().0, props.last().1)
    }
}

/// The record of a manifest's text.
pub open spec fn scan_manifest(text: Seq<char>) -> MixProjectModel {
    project_of(table_of(superglobal_declarations(text)), property_declarations(text))
}

impl Superglobals {
    /// `value`, or the literal of the constant that it names.
    pub fn resolve(&self, value: &String) -> (r: String)
        ensures
            r@ == resolve_superglobal(self@, value@),
    {
        match self.get(value) {
            Some(literal) => literal,
            None => value.clone(),
        }
    }
}

impl MixProject {
    /// The record that the declarations `properties`, in order, make, with
    /// values resolved through `superglobals`.
    pub fn from_declarations(superglobals: &Superglobals, properties: &Vec<(String, String)>) -> (r: MixProject)
        ensures
            r@ == project_of(superglobals@, pairs_view(properties@)),
    {
        let ghost props = pairs_view(properties@);
        let app_key = "app".to_owned();
        let elixir_key = "elixir".to_owned();
        let escript_key = "escript".to_owned();
        let mut app_name: Option<String> = None;
        let mut elixir_version: Option<String> = None;
        let mut is_escript = false;
        let mut i: usize = 0;
        while i < properties.len()
            invariant
                0 <= i <= properties.len(),
                props == pairs_view(properties@),
                app_key@ == "app"@,
                elixir_key@ == "elixir"@,
                escript_key@ == "escript"@,
                project_of(superglobals@, props.take(i as int)) == (MixProjectModel {
                    app_name: opt_string_view(app_name),
                    elixir_version: opt_string_view(elixir_version),
                    is_escript,
                }),
            decreases properties.len() - i,
        {
            let key = &properties[i].0;
            let value = superglobals.resolve(&properties[i].1);
            proof {
                assert(props.take(i + 1).drop_last() =~= props.take(i as int));
                assert(props.take(i + 1).last() == props[i as int]);
            }
            if *key == app_key {
                app_name = Some(value);
            } else if *key == elixir_key {
                elixir_version = Some(value);
            } else if *key == escript_key {
                is_escript = true;
            }
            i = i + 1;
        }
        assert(props.take(properties.len() as int) =~= props);
        MixProject { app_name, elixir_version, is_escript }
    }
}

/// Scans a manifest's text: collects its constants, then reads its
/// declarations, resolving each value through the constants.
pub fn scan(text: &str) -> (r: MixProject)
    ensures
        r@ == scan_manifest(text@),
{
    let superglobals = Superglobals::from_declarations(&superglobal_captures(text));
    MixProject::from_declarations(&superglobals, &property_captures(text))
}

proof fn lemma_known_keys_differ()
    ensures
        "app"@ != "elixir"@,
        "app"@ != "escript"@,
        "elixir"@ != "escript"@,
{
    reveal_strlit("app");
    reveal_strlit("elixir");
    reveal_strlit("escript");
    assert("app"@.len() != "elixir"@.len());
    assert("app"@.len() != "escript"@.len());
    assert("elixir"@.len() != "escript"@.len());
}

/// The last declaration of a known key decides that key's field.
proof fn lemma_project_last(table: Map<Seq<char>, Seq<char>>, props: Seq<(Seq<char>, Seq<char>)>, j: int)
    requires
        0 <= j < props.len(),
        forall|k: int| j < k < props.len() ==> (#[trigger] props[k]).0 != props[j].0,
    ensures
        props[j].0 == "app"@ ==> project_of(table, props).app_name == Some(
            resolve_superglobal(table, props[j].1),
        ),
        props[j].0 == "elixir"@ ==> project_of(table, props).elixir_version == Some(
            resolve_superglobal(table, props[j].1),
        ),
        props[j].0 == "escript"@ ==> project_of(table, props).is_escript,
    decreases props.len(),
{
    lemma_known_keys_differ();
    if j < props.len() - 1 {
        assert(props.last() == props[props.len() - 1]);
        let rest = props.drop_last();
        assert forall|k: int| j < k < rest.len() implies (#[trigger] rest[k]).0 != rest[j].0 by {
            assert(rest[k] == props[k]);
        }
        lemma_project_last(table, rest, j);
    }
}

/// A constant declared `@name "literal"` and given by name as the value of a
/// known key resolves to its literal: where the last declaration of `key` has
/// the value `name`, and the last constant declaration of `name` has the
/// literal `lit`, the record holds `lit` for `key`.
pub proof fn lemma_superglobal_substitution(text: Seq<char>, i: int, j: int)
    requires
        0 <= i < superglobal_declarations(text).len(),
        0 <= j < property_declarations(text).len(),
        property_declarations(text)[j].1 == superglobal_declarations(text)[i].0,
        forall|k: int|
            i < k < superglobal_declarations(text).len() ==> (#[trigger] superglobal_declarations(
                text,
            )[k]).0 != superglobal_declarations(text)[i].0,
        forall|k: int|
            j < k < property_declarations(text).len() ==> (#[trigger] property_declarations(
                text,
            )[k]).0 != property_declarations(text)[j].0,
    ensures
        property_declarations(text)[j].0 == "app"@ ==> scan_manifest(text).app_name == Some(
            superglobal_declarations(text)[i].1,
        ),
        property_declarations(text)[j].0 == "elixir"@ ==> scan_manifest(text).elixir_version == Some(
            superglobal_declarations(text)[i].1,
        ),
{
    let sg = superglobal_declarations(text);
    let props = property_declarations(text);
    lemma_table_last(sg, i);
    lemma_project_last(table_of(sg), props, j);
}

/// Scanning depends on the text alone: two scans of one text give the same
/// record.
pub proof fn lemma_scan_deterministic(text: Seq<char>, first: MixProjectModel, second: MixProjectModel)
    requires
        first == scan_manifest(text),
        second == scan_manifest(text),
    ensures
        first == second,
{
}

} // verus!
