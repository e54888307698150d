//! Release lines of the toolchain, the catalog of packages that provide them,
//! and the resolution of a version expression to the closest package.
use vstd::prelude::*;
use vstd::string::*;

verus! {

/// A release line `major.minor` (as in `1.12`). Lines are ordered by major,
/// then by minor: `1.9` comes before `1.10`.
#[derive(Clone, Copy, Debug, PartialEq, Eq, Structural)]
pub struct ReleaseLine {
    pub major: u8,
    pub minor: u8,
}

impl ReleaseLine {
    /// `self` is not newer than `other`.
    pub open spec fn spec_at_most(self, other: ReleaseLine) -> bool {
        self.major < other.major || (self.major == other.major && self.minor <= other.minor)
    }

    /// `self` is strictly older than `other`.
    pub open spec fn spec_older(self, other: ReleaseLine) -> bool {
        self.spec_at_most(other) && self != other
    }

    pub fn at_most(&self, other: &ReleaseLine) -> (r: bool)
        ensures
            r == self.spec_at_most(*other),
    {
        self.major < other.major || (self.major == other.major && self.minor <= other.minor)
    }
}

/// One entry of a catalog: the oldest release line that the package covers,
/// and the package's name.
#[derive(Debug)]
pub struct CatalogEntry {
    pub floor: ReleaseLine,
    pub package: String,
}

impl View for CatalogEntry {
    type V = (ReleaseLine, Seq<char>);

    open spec fn view(&self) -> (ReleaseLine, Seq<char>) {
        (self.floor, self.package@)
    }
}

/// The catalog's floors are strictly increasing.
pub open spec fn ascending(catalog: Seq<(ReleaseLine, Seq<char>)>) -> bool {
    forall|i: int, j: int|
        0 <= i < j < catalog.len() ==> (#[trigger] catalog[i]).0.spec_older(
            #[trigger] catalog[j].0,
        )
}

/// Index of the first entry at or after `from` whose floor is not older than
/// `version`.
pub open spec fn first_covering_from(
    catalog: Seq<(ReleaseLine, Seq<char>)>,
    version: ReleaseLine,
    from: int,
) -> Option<int>
    decreases catalog.len() - from,
{
    if from < 0 || from >= catalog.len() {
        None
    } else if version.spec_at_most(catalog[from].0) {
        Some(from)
    } else {
        first_covering_from(catalog, version, from + 1)
    }
}

/// Index of the first entry whose floor is not older than `version`: the
/// oldest supported line that still covers it, never an older one.
pub open spec fn closest_index(catalog: Seq<(ReleaseLine, Seq<char>)>, version: ReleaseLine) -> Option<int> {
    first_covering_from(catalog, version, 0)
}

/// The package that `version` resolves to in `catalog`, if any.
pub open spec fn closest_package(catalog: Seq<(ReleaseLine, Seq<char>)>, version: ReleaseLine) -> Option<Seq<char>> {
    match closest_index(catalog, version) {
        Some(i) => Some(catalog[i].1),
        None => None,
    }
}

proof fn lemma_first_covering_from(
    catalog: Seq<(ReleaseLine, Seq<char>)>,
    version: ReleaseLine,
    from: int,
)
    requires
        0 <= from <= catalog.len(),
    ensures
        match first_covering_from(catalog, version, from) {
            Some(i) => from <= i < catalog.len() && version.spec_at_most(catalog[i].0)
                && forall|j: int| from <= j < i ==> !version.spec_at_most(#[trigger] catalog[j].0),
            None => forall|j: int|
                from <= j < catalog.len() ==> !version.spec_at_most(#[trigger] catalog[j].0),
        },
    decreases catalog.len() - from,
{
    if from < catalog.len() && !version.spec_at_most(catalog[from].0) {
        lemma_first_covering_from(catalog, version, from + 1);
    }
}

/// What `closest_index` is: the first covering entry, or none when no floor
/// covers `version`.
pub proof fn lemma_closest_index(catalog: Seq<(ReleaseLine, Seq<char>)>, version: ReleaseLine)
    ensures
        match closest_index(catalog, version) {
            Some(i) => 0 <= i < catalog.len() && version.spec_at_most(catalog[i].0)
                && forall|j: int| 0 <= j < i ==> !version.spec_at_most(#[trigger] catalog[j].0),
            None => forall|j: int|
                0 <= j < catalog.len() ==> !version.spec_at_most(#[trigger] catalog[j].0),
        },
{
    lemma_first_covering_from(catalog, version, 0);
}


/// Resolves `version` in `catalog`: the package of the first entry whose floor
/// is not older than `version`, or `None` when `version` is newer than every
/// floor.
pub fn closest_catalog_package(version: ReleaseLine, catalog: &Vec<CatalogEntry>) -> (r: Option<String>)
    ensures
        opt_string_view(r) == closest_package(catalog@.map_values(|e: CatalogEntry| e@), version),
{
    let ghost cat = catalog@.map_values(|e: CatalogEntry| e@);
    proof {
        lemma_closest_index(cat, version);
    }
    let mut i: usize = 0;
    while i < catalog.len()
        invariant
            0 <= i <= catalog.len(),
            cat == catalog@.map_values(|e: CatalogEntry| e@),
            forall|j: int| 0 <= j < i ==> !version.spec_at_most(#[trigger] cat[j].0),
            match closest_index(cat, version) {
                Some(k) => 0 <= k < cat.len() && version.spec_at_most(cat[k].0)
                    && forall|j: int| 0 <= j < k ==> !version.spec_at_most(#[trigger] cat[j].0),
                None => forall|j: int|
                    0 <= j < cat.len() ==> !version.spec_at_most(#[trigger] cat[j].0),
            },
        decreases catalog.len() - i,
    {
        if version.at_most(&catalog[i].floor) {
            assert(cat[i as int].0 == catalog@[i as int].floor);
            assert(closest_index(cat, version) == Some(i as int));
            return Some(catalog[i].package.clone());
        }
        assert(cat[i as int].0 == catalog@[i as int].floor);
        i = i + 1;
    }
    None
}

/// The view of an optional string.
pub open spec fn opt_string_view(o: Option<String>) -> Option<Seq<char>> {
    match o {
        Some(s) => Some(s@),
        None => None,
    }
}

/// Resolution never goes down as the requested version goes up: a newer
/// version resolves to an entry whose floor is not older, and once a version
/// is past every floor so is every newer one.
pub proof fn lemma_resolution_monotonic(
    catalog: Seq<(ReleaseLine, Seq<char>)>,
    a: ReleaseLine,
    b: ReleaseLine,
)
    requires
        ascending(catalog),
        a.spec_older(b),
    ensures
        closest_index(catalog, a) is None ==> closest_index(catalog, b) is None,
        closest_index(catalog, a) is Some && closest_index(catalog, b) is Some ==> catalog[closest_index(
            catalog,
            a,
        )->0].0.spec_at_most(catalog[closest_index(catalog, b)->0].0),
{
    lemma_closest_index(catalog, a);
    lemma_closest_index(catalog, b);
    if let Some(j) = closest_index(catalog, b) {
        assert(a.spec_at_most(catalog[j].0));
        if let Some(i) = closest_index(catalog, a) {
            if j < i {
                assert(!a.spec_at_most(catalog[j].0));
            }
            if i < j {
                assert(catalog[i].0.spec_older(catalog[j].0));
            }
        }
    }
}

/// A version equal to a floor of an ascending catalog resolves to that very
/// entry, not to a later one.
pub proof fn lemma_resolution_exact_floor(catalog: Seq<(ReleaseLine, Seq<char>)>, k: int)
    requires
        ascending(catalog),
        0 <= k < catalog.len(),
    ensures
        closest_index(catalog, catalog[k].0) == Some(k),
        closest_package(catalog, catalog[k].0) == Some(catalog[k].1),
{
    let v = catalog[k].0;
    lemma_closest_index(catalog, v);
    assert(v.spec_at_most(catalog[k].0));
    if let Some(i) = closest_index(catalog, v) {
        if i < k {
            assert(catalog[i].0.spec_older(catalog[k].0));
        }
    }
}

/// A version newer than every floor resolves to nothing.
pub proof fn lemma_resolution_past_every_floor(catalog: Seq<(ReleaseLine, Seq<char>)>, v: ReleaseLine)
    requires
        forall|j: int| 0 <= j < catalog.len() ==> (#[trigger] catalog[j]).0.spec_older(v),
    ensures
        closest_index(catalog, v) is None,
        closest_package(catalog, v) is None,
{
    lemma_closest_index(catalog, v);
    if let Some(i) = closest_index(catalog, v) {
        assert(catalog[i].0.spec_older(v));
    }
}


/// The toolchain packages on offer, oldest line first. The newest line is
/// served by the unversioned package.
pub open spec fn elixir_catalog() -> Seq<(ReleaseLine, Seq<char>)> {
    seq![
        (ReleaseLine { major: 1, minor: 9 }, "elixir_1_9"@),
        (ReleaseLine { major: 1, minor: 10 }, "elixir_1_10"@),
        (ReleaseLine { major: 1, minor: 11 }, "elixir_1_11"@),
        (ReleaseLine { major: 1, minor: 12 }, "elixir_1_12"@),
        (ReleaseLine { major: 1, minor: 13 }, "elixir"@),
    ]
}

/// The toolchain catalog is strictly ascending.
pub proof fn lemma_elixir_catalog_ascending()
    ensures
        ascending(elixir_catalog()),
{
}

fn catalog_entry(major: u8, minor: u8, package: &str) -> (r: CatalogEntry)
    ensures
        r@ == (ReleaseLine { major, minor }, package@),
{
    CatalogEntry { floor: ReleaseLine { major, minor }, package: package.to_owned() }
}

/// The toolchain catalog as values.
pub fn available_elixir_versions() -> (r: Vec<CatalogEntry>)
    ensures
        r@.map_values(|e: CatalogEntry| e@) == elixir_catalog(),
{
    let mut v: Vec<CatalogEntry> = Vec::new();
    v.push(catalog_entry(1, 9, "elixir_1_9"));
    v.push(catalog_entry(1, 10, "elixir_1_10"));
    v.push(catalog_entry(1, 11, "elixir_1_11"));
    v.push(catalog_entry(1, 12, "elixir_1_12"));
    v.push(catalog_entry(1, 13, "elixir"));
    assert(v@.map_values(|e: CatalogEntry| e@) =~= elixir_catalog());
    v
}

pub open spec fn is_ascii_digit(c: char) -> bool {
    '0' <= c && c <= '9'
}

/// A version token starts at `i`: one ASCII digit, a point, one ASCII digit.
pub open spec fn is_version_token_at(s: Seq<char>, i: int) -> bool {
    0 <= i && i + 3 <= s.len() && is_ascii_digit(s[i]) && s[i + 1] == '.' && is_ascii_digit(
        s[i + 2],
    )
}

/// Start of the first version token at or after `from`.
pub open spec fn first_version_token_from(s: Seq<char>, from: int) -> Option<int>
    decreases s.len() - from,
{
    if from < 0 || from + 3 > s.len() {
        None
    } else if is_version_token_at(s, from) {
        Some(from)
    } else {
        first_version_token_from(s, from + 1)
    }
}

proof fn lemma_first_version_token_from(s: Seq<char>, from: int)
    requires
        0 <= from,
    ensures
        match first_version_token_from(s, from) {
            Some(i) => from <= i && is_version_token_at(s, i),
            None => true,
        },
    decreases s.len() - from,
{
    if from + 3 <= s.len() && !is_version_token_at(s, from) {
        lemma_first_version_token_from(s, from + 1);
    }
}

/// The value of an ASCII digit.
pub open spec fn digit_value(c: char) -> u8 {
    (c as u32 - '0' as u32) as u8
}

/// The release line that an expression names: its first version token, read
/// as `major.minor`. Only one digit is read on each side of the point, so
/// `"~> 1.12"` names `1.1`.
pub open spec fn release_line_in(s: Seq<char>) -> Option<ReleaseLine> {
    match first_version_token_from(s, 0) {
        Some(i) => Some(ReleaseLine { major: digit_value(s[i]), minor: digit_value(s[i + 2]) }),
        None => None,
    }
}

/// Relies on regex's `Regex::find` with the pattern `[0-9]\.[0-9]`: the
/// leftmost match, which for this fixed-width pattern is the three characters
/// at the first place where the pattern matches.
#[verifier::external_body]
fn find_version_token(s: &str) -> (r: Option<String>)
    ensures
        match first_version_token_from(s@, 0) {
            Some(i) => r is Some && r->0@ == s@.subrange(i, i + 3),
            None => r is None,
        },
{
    let re = regex::Regex::new("[0-9]\\.[0-9]").unwrap();
    re.find(s).map(|m| m.as_str().to_string())
}

fn digit_of(c: char) -> (r: u8)
    requires
        is_ascii_digit(c),
    ensures
        r == digit_value(c),
{
    (c as u32 - '0' as u32) as u8
}

/// The release line that `expr` names, if it holds a version token.
pub fn extract_release_line(expr: &str) -> (r: Option<ReleaseLine>)
    ensures
        r == release_line_in(expr@),
{
    match find_version_token(expr) {
        Some(token) => {
            let ghost i = first_version_token_from(expr@, 0)->0;
            let t = token.as_str();
            proof {
                lemma_first_version_token_from(expr@, 0);
                assert(t@ == expr@.subrange(i, i + 3));
                assert(t@[0] == expr@[i] && t@[2] == expr@[i + 2]);
            }
            let major = digit_of(t.get_char(0));
            let minor = digit_of(t.get_char(2));
            Some(ReleaseLine { major, minor })
        },
        None => None,
    }
}

} // verus!
