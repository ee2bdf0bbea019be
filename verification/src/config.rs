//! The run configuration as plain values: which creator lists to accept,
//! the archiving strategy, creator and post filters, and the session-cookie
//! header assembly. Command-line and environment parsing stay outside this
//! crate; they hand a finished `Config` in.

use vstd::prelude::*;
use vstd::string::StrSliceExecFns;
use vstd::string::StringExecFns;
use crate::fanbox::Creator;
use crate::fanbox::PostListItem;
use crate::strings::find_sub;
use crate::strings::lemma_find_first_is;
use crate::strings::lemma_find_none;
use crate::strings::lemma_join_push;
use crate::strings::spec_find_first;
use crate::strings::spec_join;
use crate::strings::spec_split;
use crate::strings::spec_starts_with;
use crate::strings::spec_trim;
use crate::strings::split_char;
use crate::strings::starts_with;
use crate::strings::str_eq;
use crate::strings::substring_copy;
use crate::strings::to_owned_str;
use crate::strings::trim;
use crate::strings::views;

verus! {

/// Which creator lists a run archives.
#[derive(Debug, Clone, Copy, PartialEq, Eq, Structural)]
pub enum SaveType {
    All,
    Following,
    Supporting,
}

impl SaveType {
    /// The kind's command-line name.
    pub fn as_str(&self) -> (r: &'static str)
        ensures
            *self == SaveType::All ==> r@ == "all"@,
            *self == SaveType::Following ==> r@ == "following"@,
            *self == SaveType::Supporting ==> r@ == "supporting"@,
    {
        match self {
            SaveType::All => "all",
            SaveType::Following => "following",
            SaveType::Supporting => "supporting",
        }
    }

    /// Whether the followed-creators list is taken.
    pub fn accept_following(&self) -> (r: bool)
        ensures
            r == (*self == SaveType::All || *self == SaveType::Following),
    {
        match self {
            SaveType::All => true,
            SaveType::Following => true,
            SaveType::Supporting => false,
        }
    }

    /// Whether the supported-creators list is taken.
    pub fn accept_supporting(&self) -> (r: bool)
        ensures
            r == (*self == SaveType::All || *self == SaveType::Supporting),
    {
        match self {
            SaveType::All => true,
            SaveType::Following => false,
            SaveType::Supporting => true,
        }
    }

    /// The accepted list names, for the run banner.
    pub fn list(&self) -> (r: Vec<&'static str>)
        ensures
            *self == SaveType::All ==> r@.len() == 2 && r@[0]@ == "following"@ && r@[1]@
                == "supporting"@,
            *self == SaveType::Following ==> r@.len() == 1 && r@[0]@ == "following"@,
            *self == SaveType::Supporting ==> r@.len() == 1 && r@[0]@ == "supporting"@,
    {
        let mut out: Vec<&'static str> = Vec::new();
        if self.accept_following() {
            out.push("following");
        }
        if self.accept_supporting() {
            out.push("supporting");
        }
        out
    }
}

impl Default for SaveType {
    /// The supported-creators list is the default source.
    fn default() -> (r: Self)
        ensures
            r == SaveType::Supporting,
    {
        SaveType::Supporting
    }
}

/// The archiving strategy: incremental (checkpoint-pruned), full (re-list
/// everything, still dedup-checked), or force (re-import even unchanged).
#[derive(Debug, Clone, Copy, PartialEq, Eq, Structural)]
pub enum Strategy {
    Increment,
    Full,
    Force,
}

impl Strategy {
    /// The strategy's command-line name.
    pub fn as_str(&self) -> (r: &'static str)
        ensures
            *self == Strategy::Increment ==> r@ == "increment"@,
            *self == Strategy::Full ==> r@ == "full"@,
            *self == Strategy::Force ==> r@ == "force"@,
    {
        match self {
            Strategy::Increment => "increment",
            Strategy::Full => "full",
            Strategy::Force => "force",
        }
    }
}

impl Default for Strategy {
    /// Runs are incremental unless asked otherwise.
    fn default() -> (r: Self)
        ensures
            r == Strategy::Increment,
    {
        Strategy::Increment
    }
}

/// `x` occurs among the strings of `l`.
pub open spec fn contains_str(l: Seq<String>, x: Seq<char>) -> bool {
    exists|i: int| 0 <= i < l.len() && views(l)[i] == x
}

/// Whether `v` holds a string equal to `x`.
pub fn contains_string(v: &Vec<String>, x: &str) -> (r: bool)
    ensures
        r == contains_str(v@, x@),
{
    let mut i: usize = 0;
    while i < v.len()
        invariant
            i <= v@.len(),
            forall|j: int| 0 <= j < i ==> views(v@)[j] != x@,
        decreases v@.len() - i,
    {
        if str_eq(v[i].as_str(), x) {
            assert(views(v@)[i as int] == x@);
            return true;
        }
        i += 1;
    }
    false
}

/// The run configuration, as the command line and environment deliver it.
pub struct Config {
    /// The session cookie value, possibly already in `FANBOXSESSID=...` form.
    pub session: String,
    /// The archive output directory.
    pub output: String,
    /// Which creator lists to archive.
    pub save: SaveType,
    /// The archiving strategy.
    pub strategy: Strategy,
    /// Creator ids to archive exclusively, when non-empty.
    pub whitelist: Vec<String>,
    /// Creator ids never to archive.
    pub blacklist: Vec<String>,
    /// Request-rate limit handed to the HTTP client.
    pub limit: u32,
    /// Skip creators and posts on the free tier.
    pub skip_free: bool,
    /// Browser identity override; a random one is injected when absent.
    pub user_agent: Option<String>,
    /// Extra cookies in `name=value; name2=value2` form.
    pub cookies: Option<String>,
    /// The anti-bot clearance cookie value, if the platform demands one.
    pub clearance: Option<String>,
    /// Where list caches are written between runs.
    pub cache_path: Option<String>,
    /// Disable the list cache.
    pub no_cache: bool,
    /// Re-download everything.
    pub force: bool,
}

/// The session value normalised into a full `FANBOXSESSID=` cookie.
pub open spec fn spec_session_cookie(s: Seq<char>) -> Seq<char> {
    if spec_starts_with(s, "FANBOXSESSID="@) {
        s
    } else {
        "FANBOXSESSID="@ + s
    }
}

/// The clearance value normalised into a full `cf_clearance=` cookie.
pub open spec fn spec_clearance_cookie(s: Seq<char>) -> Seq<char> {
    if spec_starts_with(s, "cf_clearance="@) {
        s
    } else {
        "cf_clearance="@ + s
    }
}

/// `s` with every leading copy of `p` removed.
pub open spec fn spec_strip_prefix_all(s: Seq<char>, p: Seq<char>) -> Seq<char>
    decreases s.len(),
{
    if p.len() > 0 && spec_starts_with(s, p) {
        spec_strip_prefix_all(s.skip(p.len() as int), p)
    } else {
        s
    }
}

/// `s` with every trailing copy of the character `c` removed.
pub open spec fn spec_strip_suffix_char_all(s: Seq<char>, c: char) -> Seq<char>
    decreases s.len(),
{
    if s.len() > 0 && s.last() == c {
        spec_strip_suffix_char_all(s.drop_last(), c)
    } else {
        s
    }
}

/// The bare session value: the `FANBOXSESSID=` prefix and trailing
/// semicolons stripped, whitespace trimmed.
pub open spec fn spec_session_value(s: Seq<char>) -> Seq<char> {
    spec_trim(spec_strip_suffix_char_all(spec_strip_prefix_all(s, "FANBOXSESSID="@), ';'))
}

/// Whether `p` occurs in `s` starting at `from`.
fn prefix_matches_at(s: &str, p: &str, from: usize) -> (r: bool)
    requires
        from <= s@.len(),
    ensures
        r == crate::strings::contains_at(s@, p@, from as int),
{
    let slen = s.unicode_len();
    let plen = p.unicode_len();
    if plen > slen - from {
        return false;
    }
    let mut m: usize = 0;
    while m < plen
        invariant
            m <= plen,
            from + plen <= slen,
            slen == s@.len(),
            plen == p@.len(),
            forall|w: int| 0 <= w < m ==> s@[from + w] == p@[w],
        decreases plen - m,
    {
        if s.get_char(from + m) != p.get_char(m) {
            proof {
                assert(s@.subrange(from as int, from + p@.len())[m as int] != p@[m as int]);
            }
            return false;
        }
        m += 1;
    }
    proof {
        crate::strings::lemma_contains_at_pointwise(s@, p@, from as int);
    }
    true
}

/// `s` with every leading copy of `p` removed.
pub fn strip_prefix_all(s: &str, p: &str) -> (r: String)
    ensures
        r@ == spec_strip_prefix_all(s@, p@),
{
    let plen = p.unicode_len();
    let slen = s.unicode_len();
    let mut from: usize = 0;
    proof {
        assert(s@.skip(0) =~= s@);
    }
    while plen > 0 && prefix_matches_at(s, p, from)
        invariant
            from <= slen,
            slen == s@.len(),
            plen == p@.len(),
            spec_strip_prefix_all(s@, p@) == spec_strip_prefix_all(s@.skip(from as int), p@),
        decreases slen - from,
    {
        proof {
            assert(spec_starts_with(s@.skip(from as int), p@)) by {
                assert(s@.skip(from as int).subrange(0, p@.len() as int) =~= s@.subrange(
                    from as int,
                    from + p@.len(),
                ));
            }
            assert(s@.skip(from as int).skip(p@.len() as int) =~= s@.skip(from + plen));
        }
        from += plen;
    }
    proof {
        let cur = s@.skip(from as int);
        if plen > 0 {
            assert(!spec_starts_with(cur, p@)) by {
                if spec_starts_with(cur, p@) {
                    assert(cur.subrange(0, p@.len() as int) =~= s@.subrange(
                        from as int,
                        from + p@.len(),
                    ));
                    assert(crate::strings::contains_at(s@, p@, from as int));
                }
            }
        }
        assert(spec_strip_prefix_all(cur, p@) == cur);
    }
    substring_copy(s, from, slen)
}

/// `s` with every trailing copy of `c` removed.
pub fn strip_suffix_char_all(s: &str, c: char) -> (r: String)
    ensures
        r@ == spec_strip_suffix_char_all(s@, c),
{
    let slen = s.unicode_len();
    let mut to: usize = slen;
    proof {
        assert(s@.take(slen as int) =~= s@);
    }
    while to > 0 && s.get_char(to - 1) == c
        invariant
            to <= slen,
            slen == s@.len(),
            spec_strip_suffix_char_all(s@, c) == spec_strip_suffix_char_all(s@.take(to as int), c),
        decreases to,
    {
        proof {
            assert(s@.take(to as int).last() == s@[to - 1]);
            assert(s@.take(to as int).drop_last() =~= s@.take(to - 1));
        }
        to -= 1;
    }
    proof {
        let cur = s@.take(to as int);
        if to > 0 {
            assert(cur.last() == s@[to - 1]);
        }
        assert(spec_strip_suffix_char_all(cur, c) == cur);
    }
    substring_copy(s, 0, to)
}

/// One raw cookie fragment parsed into a `(name, value)` pair: trimmed,
/// skipped when empty or without `=`, split at the first `=`, both sides
/// trimmed.
pub open spec fn spec_parse_cookie(part: Seq<char>) -> Option<(Seq<char>, Seq<char>)> {
    let t = spec_trim(part);
    if t.len() == 0 {
        None
    } else {
        match spec_find_first(t, "="@) {
            None => None,
            Some(i) => Some((spec_trim(t.take(i)), spec_trim(t.skip(i + 1)))),
        }
    }
}

/// Insert or replace: the value stored under `k` becomes `v`, keys keep
/// their first-seen order.
pub open spec fn spec_upsert(
    list: Seq<(Seq<char>, Seq<char>)>,
    k: Seq<char>,
    v: Seq<char>,
) -> Seq<(Seq<char>, Seq<char>)>
    decreases list.len(),
{
    if list.len() == 0 {
        seq![(k, v)]
    } else if list[0].0 == k {
        seq![(k, v)] + list.drop_first()
    } else {
        seq![list[0]] + spec_upsert(list.drop_first(), k, v)
    }
}

/// The cookie pairs accumulated over the raw fragments, in order, later
/// values replacing earlier ones under the same name.
pub open spec fn spec_cookie_pairs(parts: Seq<Seq<char>>) -> Seq<(Seq<char>, Seq<char>)>
    decreases parts.len(),
{
    if parts.len() == 0 {
        Seq::empty()
    } else {
        let prev = spec_cookie_pairs(parts.drop_last());
        match spec_parse_cookie(parts.last()) {
            None => prev,
            Some((k, v)) => spec_upsert(prev, k, v),
        }
    }
}

/// The views of a pair vector.
pub open spec fn pair_views(l: Seq<(String, String)>) -> Seq<(Seq<char>, Seq<char>)> {
    l.map_values(|p: (String, String)| (p.0@, p.1@))
}

/// Each pair rendered as `name=value`.
pub open spec fn spec_render_pairs(l: Seq<(Seq<char>, Seq<char>)>) -> Seq<Seq<char>> {
    l.map_values(|p: (Seq<char>, Seq<char>)| p.0 + "="@ + p.1)
}

/// The whole cookie header: the configured cookie fragments parsed and
/// deduplicated by name (last value wins), the session cookie upserted last
/// under `FANBOXSESSID`, all joined with `;`.
pub open spec fn spec_cookie_header(cookies: Seq<char>, session: Seq<char>) -> Seq<char> {
    let pairs = spec_upsert(
        spec_cookie_pairs(spec_split(cookies, ';')),
        "FANBOXSESSID"@,
        spec_session_value(session),
    );
    spec_join(spec_render_pairs(pairs), ";"@)
}

proof fn lemma_upsert_found(list: Seq<(Seq<char>, Seq<char>)>, k: Seq<char>, v: Seq<char>, i: int)
    requires
        0 <= i < list.len(),
        list[i].0 == k,
        forall|j: int| 0 <= j < i ==> (#[trigger] list[j]).0 != k,
    ensures
        spec_upsert(list, k, v) == list.update(i, (k, v)),
    decreases i,
{
    if i == 0 {
        assert(spec_upsert(list, k, v) =~= list.update(0, (k, v)));
    } else {
        assert(list.drop_first()[i - 1].0 == k);
        assert forall|j: int| 0 <= j < i - 1 implies (#[trigger] list.drop_first()[j]).0 != k by {
            assert(list.drop_first()[j] == list[j + 1]);
        }
        lemma_upsert_found(list.drop_first(), k, v, i - 1);
        assert(list.drop_first().update(i - 1, (k, v)) =~= list.update(i, (k, v)).drop_first());
        assert(spec_upsert(list, k, v) =~= list.update(i, (k, v)));
    }
}

proof fn lemma_upsert_missing(list: Seq<(Seq<char>, Seq<char>)>, k: Seq<char>, v: Seq<char>)
    requires
        forall|j: int| 0 <= j < list.len() ==> (#[trigger] list[j]).0 != k,
    ensures
        spec_upsert(list, k, v) == list.push((k, v)),
    decreases list.len(),
{
    if list.len() == 0 {
        assert(spec_upsert(list, k, v) =~= list.push((k, v)));
    } else {
        assert forall|j: int| 0 <= j < list.drop_first().len() implies (#[trigger] list.drop_first()[j]).0
            != k by {
            assert(list.drop_first()[j] == list[j + 1]);
        }
        lemma_upsert_missing(list.drop_first(), k, v);
        assert(spec_upsert(list, k, v) =~= list.push((k, v)));
    }
}

/// Store `v` under `k`: replace the first pair named `k`, or append one.
fn upsert(list: &mut Vec<(String, String)>, k: String, v: String)
    ensures
        pair_views(final(list)@) == spec_upsert(pair_views(old(list)@), k@, v@),
{
    let mut i: usize = 0;
    while i < list.len()
        invariant
            i <= list@.len(),
            list@ == old(list)@,
            forall|j: int| 0 <= j < i ==> (#[trigger] pair_views(list@)[j]).0 != k@,
        decreases list@.len() - i,
    {
        if str_eq(list[i].0.as_str(), k.as_str()) {
            proof {
                lemma_upsert_found(pair_views(list@), k@, v@, i as int);
            }
            let ghost before = pair_views(list@);
            list.set(i, (k, v));
            proof {
                assert(pair_views(list@) =~= before.update(i as int, (k@, v@)));
            }
            return ;
        }
        i += 1;
    }
    proof {
        lemma_upsert_missing(pair_views(list@), k@, v@);
    }
    let ghost before = pair_views(list@);
    list.push((k, v));
    proof {
        assert(pair_views(list@) =~= before.push((k@, v@)));
    }
}

/// Parse one raw cookie fragment.
fn parse_cookie_part(part: &str) -> (r: Option<(String, String)>)
    ensures
        match spec_parse_cookie(part@) {
            Some(kv) => r matches Some(p) && p.0@ == kv.0 && p.1@ == kv.1,
            None => r is None,
        },
{
    let t = trim(part);
    let tlen = t.as_str().unicode_len();
    if tlen == 0 {
        return None;
    }
    match find_sub(t.as_str(), "=") {
        None => {
            proof {
                lemma_find_none(t@, "="@);
            }
            None
        },
        Some(i) => {
            proof {
                lemma_find_first_is(t@, "="@, i as int);
                reveal_strlit("=");
            }
            let name = trim(t.as_str().substring_char(0, i));
            let value = trim(t.as_str().substring_char(i + 1, tlen));
            proof {
                assert(t@.subrange(0, i as int) =~= t@.take(i as int));
                assert(t@.subrange(i + 1, t@.len() as int) =~= t@.skip(i + 1));
            }
            Some((name, value))
        },
    }
}

impl Config {
    /// The session value as a full cookie, for clients that take it alone.
    pub fn session(&self) -> (r: String)
        ensures
            r@ == spec_session_cookie(self.session@),
    {
        if starts_with(self.session.as_str(), "FANBOXSESSID=") {
            self.session.clone()
        } else {
            let mut s = String::from_str("FANBOXSESSID=");
            s.append(self.session.as_str());
            s
        }
    }

    /// The anti-bot clearance value as a full cookie; empty-valued when none
    /// was configured.
    pub fn clearance(&self) -> (r: String)
        ensures
            match self.clearance {
                Some(c) => r@ == spec_clearance_cookie(c@),
                None => r@ == spec_clearance_cookie(Seq::<char>::empty()),
            },
    {
        let c = match &self.clearance {
            Some(c) => c.as_str(),
            None => "",
        };
        proof {
            reveal_strlit("");
        }
        if starts_with(c, "cf_clearance=") {
            to_owned_str(c)
        } else {
            let mut s = String::from_str("cf_clearance=");
            s.append(c);
            s
        }
    }

    /// The configured browser identity, or empty when none is set yet.
    pub fn user_agent(&self) -> (r: String)
        ensures
            match self.user_agent {
                Some(u) => r@ == u@,
                None => r@.len() == 0,
            },
    {
        match &self.user_agent {
            Some(u) => u.clone(),
            None => String::new(),
        }
    }

    /// Assemble the cookie header: configured extra cookies, deduplicated by
    /// name with the last value winning, and the session cookie last.
    pub fn cookies(&self) -> (r: String)
        ensures
            r@ == spec_cookie_header(
                match self.cookies {
                    Some(c) => c@,
                    None => Seq::<char>::empty(),
                },
                self.session@,
            ),
    {
        let raw = match &self.cookies {
            Some(c) => c.as_str(),
            None => "",
        };
        proof {
            reveal_strlit("");
            if self.cookies is None {
                assert(raw@ =~= Seq::<char>::empty());
            }
        }
        let parts = split_char(raw, ';');
        let mut list: Vec<(String, String)> = Vec::new();
        let mut i: usize = 0;
        proof {
            assert(views(parts@).take(0) =~= Seq::<Seq<char>>::empty());
            assert(pair_views(list@) =~= spec_cookie_pairs(views(parts@).take(0)));
        }
        while i < parts.len()
            invariant
                i <= parts@.len(),
                pair_views(list@) == spec_cookie_pairs(views(parts@).take(i as int)),
            decreases parts@.len() - i,
        {
            proof {
                assert(views(parts@).take(i + 1).drop_last() =~= views(parts@).take(i as int));
                assert(views(parts@).take(i + 1).last() == views(parts@)[i as int]);
            }
            match parse_cookie_part(parts[i].as_str()) {
                Some(kv) => {
                    upsert(&mut list, kv.0, kv.1);
                },
                None => {},
            }
            i += 1;
        }
        proof {
            assert(views(parts@).take(parts@.len() as int) =~= views(parts@));
        }
        let sess = trim(
            strip_suffix_char_all(
                strip_prefix_all(self.session.as_str(), "FANBOXSESSID=").as_str(),
                ';',
            ).as_str(),
        );
        upsert(&mut list, to_owned_str("FANBOXSESSID"), sess);
        let mut out = String::new();
        let mut j: usize = 0;
        proof {
            assert(spec_render_pairs(pair_views(list@)).take(0) =~= Seq::<Seq<char>>::empty());
        }
        while j < list.len()
            invariant
                j <= list@.len(),
                out@ == spec_join(spec_render_pairs(pair_views(list@)).take(j as int), ";"@),
            decreases list@.len() - j,
        {
            if j > 0 {
                out.append(";");
            }
            out.append(list[j].0.as_str());
            out.append("=");
            out.append(list[j].1.as_str());
            proof {
                let rendered = spec_render_pairs(pair_views(list@));
                assert(rendered[j as int] == list@[j as int].0@ + "="@ + list@[j as int].1@);
                assert(rendered.take(j + 1) =~= rendered.take(j as int).push(rendered[j as int]));
                if j > 0 {
                    lemma_join_push(rendered.take(j as int), ";"@, rendered[j as int]);
                    assert(out@ =~= spec_join(rendered.take(j + 1), ";"@));
                } else {
                    assert(rendered.take(1) =~= seq![rendered[0]]);
                    assert(out@ =~= spec_join(rendered.take(1), ";"@));
                }
            }
            j += 1;
        }
        proof {
            let rendered = spec_render_pairs(pair_views(list@));
            assert(rendered.take(list@.len() as int) =~= rendered);
        }
        out
    }

    /// Which creator lists to archive.
    pub fn accepts(&self) -> (r: SaveType)
        ensures
            r == self.save,
    {
        self.save
    }

    pub fn save_types(&self) -> (r: SaveType)
        ensures
            r == self.save,
    {
        self.save
    }

    pub fn skip_free(&self) -> (r: bool)
        ensures
            r == self.skip_free,
    {
        self.skip_free
    }

    pub fn whitelist(&self) -> (r: &Vec<String>)
        ensures
            r == self.whitelist,
    {
        &self.whitelist
    }

    pub fn blacklist(&self) -> (r: &Vec<String>)
        ensures
            r == self.blacklist,
    {
        &self.blacklist
    }

    pub fn output(&self) -> (r: &String)
        ensures
            r == self.output,
    {
        &self.output
    }

    pub fn limit(&self) -> (r: u32)
        ensures
            r == self.limit,
    {
        self.limit
    }

    pub fn strategy(&self) -> (r: Strategy)
        ensures
            r == self.strategy,
    {
        self.strategy
    }

    /// Where the list cache lives: nowhere when caching is off or the run is
    /// forced, else the configured path, defaulting to the working directory.
    pub fn cache(&self) -> (r: Option<String>)
        ensures
            (self.no_cache || self.force) ==> r is None,
            !(self.no_cache || self.force) ==> match self.cache_path {
                Some(p) => r matches Some(q) && q@ == p@,
                None => r matches Some(q) && q@ == "."@,
            },
    {
        if self.no_cache || self.force {
            return None;
        }
        match &self.cache_path {
            Some(p) => Some(p.clone()),
            None => Some(to_owned_str(".")),
        }
    }

    /// Whether a creator is archived: not free-skipped, on the whitelist
    /// when one is set, and not on the blacklist.
    pub fn filter_creator(&self, creator: &Creator) -> (r: bool)
        ensures
            r == spec_filter_creator(*self, *creator),
    {
        let mut accept = true;
        if self.skip_free && creator.fee == 0 {
            accept = false;
        }
        if !(self.whitelist.len() == 0 || contains_string(&self.whitelist, creator.creator_id.as_str())) {
            accept = false;
        }
        if contains_string(&self.blacklist, creator.creator_id.as_str()) {
            accept = false;
        }
        accept
    }

    /// Whether a listed post is fetched at all: not free-skipped, and not
    /// restricted to a higher tier than the session can see.
    pub fn filter_post(&self, post: &PostListItem) -> (r: bool)
        ensures
            r == spec_filter_post(*self, *post),
    {
        !(self.skip_free && post.fee_required == 0) && !post.is_restricted
    }
}

/// The creator filter: free-tier creators are skipped when `skip_free` is
/// set, a non-empty whitelist is exclusive, the blacklist always excludes.
pub open spec fn spec_filter_creator(c: Config, creator: Creator) -> bool {
    &&& !(c.skip_free && creator.fee == 0)
    &&& (c.whitelist@.len() == 0 || contains_str(c.whitelist@, creator.creator_id@))
    &&& !contains_str(c.blacklist@, creator.creator_id@)
}

/// The post filter: free posts are skipped when `skip_free` is set, and
/// restricted posts are never fetched.
pub open spec fn spec_filter_post(c: Config, post: PostListItem) -> bool {
    !(c.skip_free && post.fee_required == 0) && !post.is_restricted
}

/// List caches waiting to be written out at the end of the run.
pub struct CacheCleanup {
    pub pending: Vec<(String, Vec<u8>)>,
}

impl CacheCleanup {
    pub fn new() -> (r: CacheCleanup)
        ensures
            r.pending@.len() == 0,
    {
        CacheCleanup { pending: Vec::new() }
    }

    /// Queue one cache file for writing at shutdown.
    pub fn push(&mut self, path: String, data: Vec<u8>)
        ensures
            final(self).pending@ == old(self).pending@.push((path, data)),
    {
        self.pending.push((path, data));
    }
}

} // verus!
