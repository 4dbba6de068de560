//! Known Ethereum 2.0 clients and their fingerprints, read from the agent
//! string that a peer advertises.
//!
//! The first `/`-separated field of an agent string selects a family rule from
//! a table; the rule says which later fields hold the version and the
//! operating system, and how the version decides between a current and a
//! legacy release.
use crate::text::{
    chars_eq, chars_of, copy_range, parse_i32, parse_i32_exec, second_piece, second_piece_exec,
    split_char, split_ranges, lemma_split_char_nonempty, lemma_split_first_at, ranges_cover,
    occurs_at,
};
use vstd::string::*;
use vstd::prelude::*;

verus! {

/// The client implementations that can be told apart.
#[derive(Clone, Copy, Debug, PartialEq, Eq, Structural)]
pub enum ClientKind {
    /// A lighthouse node (the best kind).
    Lighthouse,
    LighthouseOld,
    /// A Nimbus node.
    Nimbus,
    /// A Teku node.
    Teku,
    /// A Prysm node.
    Prysm,
    PrysmOld,
    /// A lodestar node.
    Lodestar,
    /// An unknown client.
    Unknown,
}

/// How a family's version field decides its kind.
pub enum VersionRule {
    /// Every agent string of the family has this kind.
    Fixed(ClientKind),
    /// The version reads `<major>.<minor>.<patch>[-...]`; it is current when
    /// `major` matches and `(minor, patch)` is at least the given pair.
    Release { major: &'static str, minor: i32, patch: i32, current: ClientKind, legacy: ClientKind },
    /// The release tag (the second field) carries `<marker><build>`; builds
    /// above `build` are current, builds equal to it are current unless the
    /// reported version is one of `excluded`.
    PreRelease {
        marker: &'static str,
        build: i32,
        excluded: Vec<&'static str>,
        current: ClientKind,
        legacy: ClientKind,
    },
}

/// One row of the family table.
pub struct FamilyRule {
    /// The exact first field that selects this rule.
    pub marker: &'static str,
    /// Whether a release tag stands between the marker and the version.
    pub skip_tag: bool,
    /// Whether the version and OS fields are reported at all.
    pub report: bool,
    pub rule: VersionRule,
}

/// The mathematical content of a `VersionRule`.
pub enum VersionRuleView {
    Fixed(ClientKind),
    Release { major: Seq<char>, minor: i32, patch: i32, current: ClientKind, legacy: ClientKind },
    PreRelease {
        marker: Seq<char>,
        build: i32,
        excluded: Seq<Seq<char>>,
        current: ClientKind,
        legacy: ClientKind,
    },
}

/// The mathematical content of a `FamilyRule`.
pub struct FamilyRuleView {
    pub marker: Seq<char>,
    pub skip_tag: bool,
    pub report: bool,
    pub rule: VersionRuleView,
}

impl View for VersionRule {
    type V = VersionRuleView;

    open spec fn view(&self) -> VersionRuleView {
        match *self {
            VersionRule::Fixed(k) => VersionRuleView::Fixed(k),
            VersionRule::Release { major, minor, patch, current, legacy } => VersionRuleView::Release {
                major: major@,
                minor,
                patch,
                current,
                legacy,
            },
            VersionRule::PreRelease { marker, build, excluded, current, legacy } =>
                VersionRuleView::PreRelease {
                marker: marker@,
                build,
                excluded: excluded@.map_values(|s: &str| s@),
                current,
                legacy,
            },
        }
    }
}

impl View for FamilyRule {
    type V = FamilyRuleView;

    open spec fn view(&self) -> FamilyRuleView {
        FamilyRuleView {
            marker: self.marker@,
            skip_tag: self.skip_tag,
            report: self.report,
            rule: self.rule@,
        }
    }
}

/// Various client and protocol information related to a node.
#[derive(Clone, Debug)]
pub struct Client {
    /// The client's name (Ex: lighthouse, prism, nimbus, etc)
    pub kind: ClientKind,
    /// The client's version.
    pub version: String,
    /// The OS version of the client.
    pub os_version: String,
    /// The libp2p protocol version.
    pub protocol_version: String,
    /// Identify agent string
    pub agent_string: Option<String>,
}

pub open spec fn unknown_text() -> Seq<char> {
    "unknown"@
}

/// The field at `i`, or `unknown` when there are not that many fields.
pub open spec fn field_or_unknown(f: Seq<Seq<char>>, i: int) -> Seq<char> {
    if 0 <= i < f.len() {
        f[i]
    } else {
        unknown_text()
    }
}

/// Whether a version field such as `v0.3.1-abc` is at least `major.minor.patch`,
/// reading the part before the first `-` as `.`-separated numbers.
pub open spec fn release_is_current(v: Seq<char>, major: Seq<char>, minor: i32, patch: i32) -> bool {
    let parts = split_char(split_char(v, '-')[0], '.');
    &&& parts[0] == major
    &&& parts.len() > 1
    &&& match parse_i32(parts[1]) {
        Some(m) => m > minor || (m == minor && parts.len() > 2 && match parse_i32(parts[2]) {
            Some(p) => p >= patch,
            None => false,
        }),
        None => false,
    }
}

/// Whether a release tag such as `v1.0.0-alpha.25` names a current build.
pub open spec fn prerelease_is_current(
    tag: Seq<char>,
    marker: Seq<char>,
    build: i32,
    excluded: Seq<Seq<char>>,
    version: Seq<char>,
) -> bool {
    match second_piece(tag, marker) {
        Some(b) => match parse_i32(b) {
            Some(n) => n > build || (n == build && !excluded.contains(version)),
            None => false,
        },
        None => false,
    }
}

/// The kind that `rule` gives to the agent string with fields `f`.
pub open spec fn rule_kind(rule: FamilyRuleView, f: Seq<Seq<char>>) -> ClientKind {
    match rule.rule {
        VersionRuleView::Fixed(k) => k,
        VersionRuleView::Release { major, minor, patch, current, legacy } => {
            if f.len() > 1 && release_is_current(f[1], major, minor, patch) {
                current
            } else {
                legacy
            }
        },
        VersionRuleView::PreRelease { marker, build, excluded, current, legacy } => {
            let version = field_or_unknown(f, if rule.skip_tag { 2 } else { 1 });
            if f.len() > 1 && prerelease_is_current(f[1], marker, build, excluded, version) {
                current
            } else {
                legacy
            }
        },
    }
}

/// The first rule of `table` whose marker is `m`.
pub open spec fn lookup_rule(table: Seq<FamilyRuleView>, m: Seq<char>) -> Option<FamilyRuleView>
    decreases table.len(),
{
    if table.len() == 0 {
        None
    } else if table[0].marker == m {
        Some(table[0])
    } else {
        lookup_rule(table.drop_first(), m)
    }
}

/// The kind, version and OS that `table` assigns to the agent string `a`.
pub open spec fn classify_spec(table: Seq<FamilyRuleView>, a: Seq<char>) -> (
    ClientKind,
    Seq<char>,
    Seq<char>,
) {
    let f = split_char(a, '/');
    match lookup_rule(table, f[0]) {
        Some(rule) => {
            let skip: int = if rule.skip_tag { 1 } else { 0 };
            if rule.report {
                (rule_kind(rule, f), field_or_unknown(f, 1 + skip), field_or_unknown(f, 2 + skip))
            } else {
                (rule_kind(rule, f), unknown_text(), unknown_text())
            }
        },
        None => (ClientKind::Unknown, unknown_text(), unknown_text()),
    }
}

/// The family table in use on the network.
pub open spec fn known_families_spec() -> Seq<FamilyRuleView> {
    seq![
        FamilyRuleView {
            marker: "Lighthouse"@,
            skip_tag: false,
            report: true,
            rule: VersionRuleView::Release {
                major: "v0"@,
                minor: 3,
                patch: 1,
                current: ClientKind::Lighthouse,
                legacy: ClientKind::LighthouseOld,
            },
        },
        FamilyRuleView {
            marker: "teku"@,
            skip_tag: false,
            report: true,
            rule: VersionRuleView::Fixed(ClientKind::Teku),
        },
        FamilyRuleView {
            marker: "github.com"@,
            skip_tag: false,
            report: false,
            rule: VersionRuleView::Fixed(ClientKind::PrysmOld),
        },
        FamilyRuleView {
            marker: "Prysm"@,
            skip_tag: true,
            report: true,
            rule: VersionRuleView::PreRelease {
                marker: "-beta."@,
                build: 0,
                excluded: Seq::empty(),
                current: ClientKind::Prysm,
                legacy: ClientKind::PrysmOld,
            },
        },
        FamilyRuleView {
            marker: "nim-libp2p"@,
            skip_tag: false,
            report: true,
            rule: VersionRuleView::Fixed(ClientKind::Nimbus),
        },
        FamilyRuleView {
            marker: "js-libp2p"@,
            skip_tag: false,
            report: true,
            rule: VersionRuleView::Fixed(ClientKind::Lodestar),
        },
    ]
}

/// The family table in use on the network.
pub fn known_families() -> (r: Vec<FamilyRule>)
    ensures
        r@.map_values(|x: FamilyRule| x@) == known_families_spec(),
{
    let mut r: Vec<FamilyRule> = Vec::new();
    r.push(
        FamilyRule {
            marker: "Lighthouse",
            skip_tag: false,
            report: true,
            rule: VersionRule::Release {
                major: "v0",
                minor: 3,
                patch: 1,
                current: ClientKind::Lighthouse,
                legacy: ClientKind::LighthouseOld,
            },
        },
    );
    r.push(
        FamilyRule {
            marker: "teku",
            skip_tag: false,
            report: true,
            rule: VersionRule::Fixed(ClientKind::Teku),
        },
    );
    r.push(
        FamilyRule {
            marker: "github.com",
            skip_tag: false,
            report: false,
            rule: VersionRule::Fixed(ClientKind::PrysmOld),
        },
    );
    let excluded: Vec<&'static str> = Vec::new();
    assert(excluded@.map_values(|s: &str| s@) =~= Seq::<Seq<char>>::empty());
    r.push(
        FamilyRule {
            marker: "Prysm",
            skip_tag: true,
            report: true,
            rule: VersionRule::PreRelease {
                marker: "-beta.",
                build: 0,
                excluded,
                current: ClientKind::Prysm,
                legacy: ClientKind::PrysmOld,
            },
        },
    );
    r.push(
        FamilyRule {
            marker: "nim-libp2p",
            skip_tag: false,
            report: true,
            rule: VersionRule::Fixed(ClientKind::Nimbus),
        },
    );
    r.push(
        FamilyRule {
            marker: "js-libp2p",
            skip_tag: false,
            report: true,
            rule: VersionRule::Fixed(ClientKind::Lodestar),
        },
    );
    let ghost v = r@.map_values(|x: FamilyRule| x@);
    assert(v[0] == known_families_spec()[0]);
    assert(v[1] == known_families_spec()[1]);
    assert(v[2] == known_families_spec()[2]);
    assert(v[3] == known_families_spec()[3]);
    assert(v[4] == known_families_spec()[4]);
    assert(v[5] == known_families_spec()[5]);
    assert(v =~= known_families_spec());
    r
}

/// The view of a family table.
pub open spec fn table_view(table: Seq<FamilyRule>) -> Seq<FamilyRuleView> {
    table.map_values(|x: FamilyRule| x@)
}

/// The index of the first rule of `table` whose marker is `m`.
fn find_rule(table: &Vec<FamilyRule>, m: &Vec<char>) -> (r: Option<usize>)
    ensures
        match r {
            Some(i) => i < table@.len() && lookup_rule(table_view(table@), m@) == Some(
                table_view(table@)[i as int],
            ),
            None => lookup_rule(table_view(table@), m@) is None,
        },
{
    let ghost tv = table_view(table@);
    let n = table.len();
    let mut i: usize = 0;
    assert(tv.subrange(0, n as int) == tv);
    while i < n
        invariant
            i <= n == table@.len() == tv.len(),
            tv == table_view(table@),
            lookup_rule(tv, m@) == lookup_rule(tv.subrange(i as int, n as int), m@),
        decreases n - i,
    {
        let ghost rest = tv.subrange(i as int, n as int);
        assert(rest[0] == tv[i as int]);
        assert(rest.drop_first() == tv.subrange(i + 1, n as int));
        let marker = chars_of(table[i].marker);
        if chars_eq(&marker, m) {
            return Some(i);
        }
        i = i + 1;
    }
    None
}

/// Whether the version field `v` is at least `major.minor.patch`.
fn release_is_current_exec(v: &Vec<char>, major: &str, minor: i32, patch: i32) -> (r: bool)
    ensures
        r == release_is_current(v@, major@, minor, patch),
{
    proof {
        lemma_split_char_nonempty(v@, '-');
    }
    let dash = split_ranges(v, '-');
    let head = copy_range(v, dash[0].0, dash[0].1);
    proof {
        lemma_split_char_nonempty(head@, '.');
    }
    let dots = split_ranges(&head, '.');
    let p0 = copy_range(&head, dots[0].0, dots[0].1);
    let major_chars = chars_of(major);
    if !chars_eq(&p0, &major_chars) {
        return false;
    }
    if dots.len() <= 1 {
        return false;
    }
    let p1 = copy_range(&head, dots[1].0, dots[1].1);
    match parse_i32_exec(&p1) {
        Some(m) => {
            if m > minor {
                true
            } else if m == minor && dots.len() > 2 {
                let p2 = copy_range(&head, dots[2].0, dots[2].1);
                match parse_i32_exec(&p2) {
                    Some(p) => p >= patch,
                    None => false,
                }
            } else {
                false
            }
        },
        None => false,
    }
}

/// Whether `version` is one of `excluded`.
fn is_excluded(excluded: &Vec<&'static str>, version: &Vec<char>) -> (r: bool)
    ensures
        r == excluded@.map_values(|s: &str| s@).contains(version@),
{
    let ghost ev = excluded@.map_values(|s: &str| s@);
    let mut i: usize = 0;
    while i < excluded.len()
        invariant
            i <= excluded@.len() == ev.len(),
            ev == excluded@.map_values(|s: &str| s@),
            forall|j: int| 0 <= j < i ==> ev[j] != version@,
        decreases excluded.len() - i,
    {
        let e = chars_of(excluded[i]);
        if chars_eq(&e, version) {
            assert(ev[i as int] == version@);
            return true;
        }
        i = i + 1;
    }
    false
}

/// Whether the release tag `tag` names a current build.
fn prerelease_is_current_exec(
    tag: &Vec<char>,
    marker: &str,
    build: i32,
    excluded: &Vec<&'static str>,
    version: &Vec<char>,
) -> (r: bool)
    ensures
        r == prerelease_is_current(tag@, marker@, build, excluded@.map_values(|s: &str| s@), version@),
{
    let marker_chars = chars_of(marker);
    if marker_chars.len() == 0 {
        proof {
            assert(tag@.subrange(0, 0) =~= marker@);
            assert(occurs_at(tag@, marker@, 0));
            lemma_split_first_at(tag@, marker@, 0);
            let rest = tag@.subrange(marker@.len() as int, tag@.len() as int);
            assert(rest.subrange(0, 0) =~= marker@);
            assert(occurs_at(rest, marker@, 0));
            lemma_split_first_at(rest, marker@, 0);
        }
        return false;
    }
    match second_piece_exec(tag, &marker_chars) {
        Some(b) => match parse_i32_exec(&b) {
            Some(n) => n > build || (n == build && !is_excluded(excluded, version)),
            None => false,
        },
        None => false,
    }
}

/// The field of `agent` at index `i` as a string, or `unknown`.
fn field_string(agent: &str, ranges: &Vec<(usize, usize)>, i: usize) -> (r: String)
    requires
        ranges@.len() == split_char(agent@, '/').len(),
        ranges_cover(agent@, ranges@, split_char(agent@, '/')),
    ensures
        r@ == field_or_unknown(split_char(agent@, '/'), i as int),
{
    if i < ranges.len() {
        agent.substring_char(ranges[i].0, ranges[i].1).to_owned()
    } else {
        "unknown".to_owned()
    }
}

/// The characters of field `i` of `chars`, or of `unknown`.
fn field_chars(chars: &Vec<char>, ranges: &Vec<(usize, usize)>, i: usize) -> (r: Vec<char>)
    requires
        ranges@.len() == split_char(chars@, '/').len(),
        ranges_cover(chars@, ranges@, split_char(chars@, '/')),
    ensures
        r@ == field_or_unknown(split_char(chars@, '/'), i as int),
{
    if i < ranges.len() {
        copy_range(chars, ranges[i].0, ranges[i].1)
    } else {
        chars_of("unknown")
    }
}

/// The kind that `rule` gives to the agent string whose characters are `chars`.
fn rule_kind_exec(rule: &FamilyRule, chars: &Vec<char>, ranges: &Vec<(usize, usize)>) -> (r: ClientKind)
    requires
        ranges@.len() == split_char(chars@, '/').len(),
        ranges_cover(chars@, ranges@, split_char(chars@, '/')),
    ensures
        r == rule_kind(rule@, split_char(chars@, '/')),
{
    match &rule.rule {
        VersionRule::Fixed(k) => *k,
        VersionRule::Release { major, minor, patch, current, legacy } => {
            if ranges.len() > 1 {
                let v = field_chars(chars, ranges, 1);
                if release_is_current_exec(&v, major, *minor, *patch) {
                    return *current;
                }
            }
            *legacy
        },
        VersionRule::PreRelease { marker, build, excluded, current, legacy } => {
            if ranges.len() > 1 {
                let tag = field_chars(chars, ranges, 1);
                let version = field_chars(chars, ranges, if rule.skip_tag { 2 } else { 1 });
                if prerelease_is_current_exec(&tag, marker, *build, excluded, &version) {
                    return *current;
                }
            }
            *legacy
        },
    }
}

/// Classifies the agent string `agent` by the family table `table`: the
/// client kind, its version and its operating system, each `unknown` where
/// the string does not say.
pub fn classify_with(table: &Vec<FamilyRule>, agent: &str) -> (r: (ClientKind, String, String))
    ensures
        (r.0, r.1@, r.2@) == classify_spec(table_view(table@), agent@),
{
    let chars = chars_of(agent);
    let ranges = split_ranges(&chars, '/');
    proof {
        lemma_split_char_nonempty(chars@, '/');
    }
    let first = field_chars(&chars, &ranges, 0);
    match find_rule(table, &first) {
        Some(i) => {
            let rule = &table[i];
            let kind = rule_kind_exec(rule, &chars, &ranges);
            if rule.report {
                let skip: usize = if rule.skip_tag { 1 } else { 0 };
                (kind, field_string(agent, &ranges, 1 + skip), field_string(agent, &ranges, 2 + skip))
            } else {
                (kind, "unknown".to_owned(), "unknown".to_owned())
            }
        },
        None => (ClientKind::Unknown, "unknown".to_owned(), "unknown".to_owned()),
    }
}

/// Identifies a client from its agent string: the client kind, its version
/// and its operating system, by the family table in use on the network.
pub fn client_from_agent_version(agent_version: &str) -> (r: (ClientKind, String, String))
    ensures
        (r.0, r.1@, r.2@) == classify_spec(known_families_spec(), agent_version@),
{
    let table = known_families();
    classify_with(&table, agent_version)
}

/// Whether every kind that `rule` can give names a known family.
pub open spec fn rule_names_family(rule: FamilyRuleView) -> bool {
    match rule.rule {
        VersionRuleView::Fixed(k) => k != ClientKind::Unknown,
        VersionRuleView::Release { current, legacy, .. } => current != ClientKind::Unknown && legacy
            != ClientKind::Unknown,
        VersionRuleView::PreRelease { current, legacy, .. } => current != ClientKind::Unknown
            && legacy != ClientKind::Unknown,
    }
}

/// The rule that a lookup finds is a row of the table.
pub proof fn lemma_lookup_in_table(table: Seq<FamilyRuleView>, m: Seq<char>)
    ensures
        lookup_rule(table, m) is Some ==> exists|i: int|
            0 <= i < table.len() && table[i] == lookup_rule(table, m)->0,
    decreases table.len(),
{
    if table.len() > 0 && table[0].marker != m {
        let rest = table.drop_first();
        lemma_lookup_in_table(rest, m);
        if lookup_rule(rest, m) is Some {
            let i = choose|i: int| 0 <= i < rest.len() && rest[i] == lookup_rule(rest, m)->0;
            assert(table[i + 1] == rest[i]);
        }
    }
}

proof fn lemma_rule_kind_named(rule: FamilyRuleView, f: Seq<Seq<char>>)
    requires
        rule_names_family(rule),
    ensures
        rule_kind(rule, f) != ClientKind::Unknown,
{
}

/// What `classify_spec` reports has the record's shape for `table`: an
/// unknown family reports `unknown` for version and OS, and every reported
/// version or OS is `unknown` or a field of the agent string after the first.
pub open spec fn classified_shape(table: Seq<FamilyRuleView>, a: Seq<char>) -> bool {
    let (kind, version, os) = classify_spec(table, a);
    let f = split_char(a, '/');
    &&& kind == ClientKind::Unknown ==> version == unknown_text() && os == unknown_text()
    &&& version == unknown_text() || exists|i: int| 0 < i < f.len() && f[i] == version
    &&& os == unknown_text() || exists|i: int| 0 < i < f.len() && f[i] == os
}

#[verifier::spinoff_prover]
proof fn lemma_classify_shape_table(table: Seq<FamilyRuleView>, a: Seq<char>)
    requires
        forall|i: int| 0 <= i < table.len() ==> #[trigger] rule_names_family(table[i]),
    ensures
        classified_shape(table, a),
{
    let f = split_char(a, '/');
    lemma_split_char_nonempty(a, '/');
    lemma_lookup_in_table(table, f[0]);
    match lookup_rule(table, f[0]) {
        Some(rule) => {
            let i = choose|i: int| 0 <= i < table.len() && table[i] == rule;
            assert(rule_names_family(table[i]));
            lemma_rule_kind_named(rule, f);
            let skip: int = if rule.skip_tag { 1 } else { 0 };
            if rule.report {
                if 1 + skip < f.len() {
                    assert(f[1 + skip] == field_or_unknown(f, 1 + skip));
                }
                if 2 + skip < f.len() {
                    assert(f[2 + skip] == field_or_unknown(f, 2 + skip));
                }
            }
        },
        None => {},
    }
}

/// Classification by the network's table is total and keeps to the record's
/// shape: an unknown family reports `unknown` for version and OS, and every
/// reported version or OS is either `unknown` or one of the agent string's
/// `/`-separated fields.
pub proof fn lemma_classify_shape(a: Seq<char>)
    ensures
        classified_shape(known_families_spec(), a),
{
    let t = known_families_spec();
    assert forall|i: int| 0 <= i < t.len() implies #[trigger] rule_names_family(t[i]) by {}
    lemma_classify_shape_table(t, a);
}

/// Classification depends on the agent string alone: equal strings get
/// equal kinds, versions and OS tags.
pub proof fn lemma_classify_deterministic(table: Seq<FamilyRuleView>, a: Seq<char>, b: Seq<char>)
    requires
        a == b,
    ensures
        classify_spec(table, a) == classify_spec(table, b),
{
}

/// The name of a client kind, as `Debug` writes it.
pub open spec fn kind_name(k: ClientKind) -> Seq<char> {
    match k {
        ClientKind::Lighthouse => "Lighthouse"@,
        ClientKind::LighthouseOld => "LighthouseOld"@,
        ClientKind::Nimbus => "Nimbus"@,
        ClientKind::Teku => "Teku"@,
        ClientKind::Prysm => "Prysm"@,
        ClientKind::PrysmOld => "PrysmOld"@,
        ClientKind::Lodestar => "Lodestar"@,
        ClientKind::Unknown => "Unknown"@,
    }
}

/// The label that opens the description of a client of kind `k`.
pub open spec fn kind_label(k: ClientKind) -> Seq<char> {
    match k {
        ClientKind::LighthouseOld => "Lighthouse Old"@,
        ClientKind::PrysmOld => "Prysm Old"@,
        _ => kind_name(k),
    }
}

/// The one-line description of a client.
pub open spec fn describe(
    kind: ClientKind,
    version: Seq<char>,
    os_version: Seq<char>,
    agent: Option<Seq<char>>,
) -> Seq<char> {
    match kind {
        ClientKind::Lodestar => "Lodestar: version: "@ + version,
        ClientKind::Unknown => match agent {
            Some(a) => "Unknown: "@ + a,
            None => "Unknown"@,
        },
        _ => kind_label(kind) + ": version: "@ + version + ", os_version: "@ + os_version,
    }
}

impl ClientKind {
    /// The name of the kind, as `Debug` writes it.
    pub fn to_string(&self) -> (r: String)
        ensures
            r@ == kind_name(*self),
    {
        match self {
            ClientKind::Lighthouse => "Lighthouse".to_owned(),
            ClientKind::LighthouseOld => "LighthouseOld".to_owned(),
            ClientKind::Nimbus => "Nimbus".to_owned(),
            ClientKind::Teku => "Teku".to_owned(),
            ClientKind::Prysm => "Prysm".to_owned(),
            ClientKind::PrysmOld => "PrysmOld".to_owned(),
            ClientKind::Lodestar => "Lodestar".to_owned(),
            ClientKind::Unknown => "Unknown".to_owned(),
        }
    }

    fn label(&self) -> (r: &'static str)
        ensures
            r@ == kind_label(*self),
    {
        match self {
            ClientKind::Lighthouse => "Lighthouse",
            ClientKind::LighthouseOld => "Lighthouse Old",
            ClientKind::Nimbus => "Nimbus",
            ClientKind::Teku => "Teku",
            ClientKind::Prysm => "Prysm",
            ClientKind::PrysmOld => "Prysm Old",
            ClientKind::Lodestar => "Lodestar",
            ClientKind::Unknown => "Unknown",
        }
    }
}

impl Default for Client {
    fn default() -> (r: Client)
        ensures
            r.kind == ClientKind::Unknown,
            r.version@ == unknown_text(),
            r.os_version@ == unknown_text(),
            r.protocol_version@ == unknown_text(),
            r.agent_string is None,
    {
        Client {
            kind: ClientKind::Unknown,
            version: "unknown".to_owned(),
            os_version: "unknown".to_owned(),
            protocol_version: "unknown".to_owned(),
            agent_string: None,
        }
    }
}

impl Client {
    /// Builds a `Client` from what the identify protocol reported: the
    /// agent string is classified and kept, the protocol version is kept.
    pub fn from_identify_info(agent_version: &str, protocol_version: &str) -> (r: Client)
        ensures
            (r.kind, r.version@, r.os_version@) == classify_spec(
                known_families_spec(),
                agent_version@,
            ),
            r.protocol_version@ == protocol_version@,
            r.agent_string is Some,
            r.agent_string->0@ == agent_version@,
    {
        let (kind, version, os_version) = client_from_agent_version(agent_version);
        Client {
            kind,
            version,
            os_version,
            protocol_version: protocol_version.to_owned(),
            agent_string: Some(agent_version.to_owned()),
        }
    }

    /// A one-line description of the client.
    pub fn to_string(&self) -> (r: String)
        ensures
            r@ == describe(
                self.kind,
                self.version@,
                self.os_version@,
                match self.agent_string {
                    Some(a) => Some(a@),
                    None => None,
                },
            ),
    {
        match self.kind {
            ClientKind::Lodestar => {
                let mut s = "Lodestar: version: ".to_owned();
                s.append(self.version.as_str());
                s
            },
            ClientKind::Unknown => match &self.agent_string {
                Some(a) => {
                    let mut s = "Unknown: ".to_owned();
                    s.append(a.as_str());
                    s
                },
                None => "Unknown".to_owned(),
            },
            _ => {
                let mut s = self.kind.label().to_owned();
                s.append(": version: ");
                s.append(self.version.as_str());
                s.append(", os_version: ");
                s.append(self.os_version.as_str());
                s
            },
        }
    }
}

} // verus!
