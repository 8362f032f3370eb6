use vstd::prelude::*;

use crate::restaurant::{provider_key, spec_provider_key, Provider};
use crate::text::{chars_to_string, push_all, str_to_chars};

verus! {

/// A key segment character kept as it is, or replaced by '_'.
pub open spec fn sanitize_char(c: char) -> char {
    if ('A' <= c && c <= 'Z') || ('a' <= c && c <= 'z') || ('0' <= c && c <= '9') || c == '.' || c
        == '_' || c == '-' {
        c
    } else {
        '_'
    }
}

/// A key segment with every character outside `[A-Za-z0-9._-]` replaced
/// by '_'.
pub open spec fn spec_sanitize(s: Seq<char>) -> Seq<char> {
    s.map_values(|c: char| sanitize_char(c))
}

pub fn sanitize_key_segment(value: &str) -> (r: String)
    ensures
        r@ == spec_sanitize(value@),
{
    let v = str_to_chars(value);
    let mut out: Vec<char> = Vec::new();
    let mut i: usize = 0;
    proof {
        assert(out@ =~= v@.take(0).map_values(|c: char| sanitize_char(c)));
    }
    while i < v.len()
        invariant
            i <= v@.len(),
            v@ == value@,
            out@ == v@.take(i as int).map_values(|c: char| sanitize_char(c)),
        decreases v@.len() - i,
    {
        let c = v[i];
        let kept = ('A' <= c && c <= 'Z') || ('a' <= c && c <= 'z') || ('0' <= c && c <= '9') || c
            == '.' || c == '_' || c == '-';
        if kept {
            out.push(c);
        } else {
            out.push('_');
        }
        proof {
            assert(out@ =~= v@.take(i + 1).map_values(|c: char| sanitize_char(c)));
        }
        i += 1;
    }
    proof {
        assert(v@.take(v@.len() as int) =~= v@);
    }
    chars_to_string(&out)
}

/// The file extension used for each provider's raw payload.
pub open spec fn spec_cache_ext(p: Provider) -> Seq<char> {
    match p {
        Provider::Compass => "json"@,
        Provider::CompassRss => "xml"@,
        Provider::Antell => "html"@,
        Provider::HuomenJson => "json"@,
    }
}

fn cache_ext(p: Provider) -> (r: &'static str)
    ensures
        r@ == spec_cache_ext(p),
{
    match p {
        Provider::Compass => "json",
        Provider::CompassRss => "xml",
        Provider::Antell => "html",
        Provider::HuomenJson => "json",
    }
}

/// The canonical cache file name:
/// `{provider}__{code}__{language}.{ext}`, each segment sanitized.
pub open spec fn spec_cache_filename(p: Provider, code: Seq<char>, language: Seq<char>) -> Seq<
    char,
> {
    spec_sanitize(spec_provider_key(p)) + "__"@ + spec_sanitize(code) + "__"@ + spec_sanitize(
        language,
    ) + seq!['.'] + spec_cache_ext(p)
}

pub fn cache_filename(provider: Provider, code: &str, language: &str) -> (r: String)
    ensures
        r@ == spec_cache_filename(provider, code@, language@),
{
    let key = sanitize_key_segment(provider_key(provider));
    let sc = sanitize_key_segment(code);
    let sl = sanitize_key_segment(language);
    let ext = cache_ext(provider);
    let mut out: Vec<char> = Vec::new();
    push_all(&mut out, &str_to_chars(key.as_str()));
    push_all(&mut out, &str_to_chars("__"));
    push_all(&mut out, &str_to_chars(sc.as_str()));
    push_all(&mut out, &str_to_chars("__"));
    push_all(&mut out, &str_to_chars(sl.as_str()));
    out.push('.');
    push_all(&mut out, &str_to_chars(ext));
    proof {
        assert(out@ =~= spec_cache_filename(provider, code@, language@));
    }
    chars_to_string(&out)
}

/// The read-only legacy cache file name:
/// `{provider}|{code}|{language}.{ext}`, unsanitized.
pub open spec fn spec_legacy_cache_filename(
    p: Provider,
    code: Seq<char>,
    language: Seq<char>,
) -> Seq<char> {
    spec_provider_key(p) + seq!['|'] + code + seq!['|'] + language + seq!['.'] + spec_cache_ext(p)
}

pub fn legacy_cache_filename(provider: Provider, code: &str, language: &str) -> (r: String)
    ensures
        r@ == spec_legacy_cache_filename(provider, code@, language@),
{
    let key = provider_key(provider);
    let ext = cache_ext(provider);
    let mut out: Vec<char> = Vec::new();
    push_all(&mut out, &str_to_chars(key));
    out.push('|');
    push_all(&mut out, &str_to_chars(code));
    out.push('|');
    push_all(&mut out, &str_to_chars(language));
    out.push('.');
    push_all(&mut out, &str_to_chars(ext));
    proof {
        assert(out@ =~= spec_legacy_cache_filename(provider, code@, language@));
    }
    chars_to_string(&out)
}

/// The canonical path of one cache entry under the given cache directory.
pub open spec fn spec_cache_path(
    base: Seq<char>,
    p: Provider,
    code: Seq<char>,
    language: Seq<char>,
) -> Seq<char> {
    base + seq!['/'] + spec_cache_filename(p, code, language)
}

pub fn cache_path(base: &str, provider: Provider, code: &str, language: &str) -> (r: String)
    ensures
        r@ == spec_cache_path(base@, provider, code@, language@),
{
    let name = cache_filename(provider, code, language);
    let mut out: Vec<char> = Vec::new();
    push_all(&mut out, &str_to_chars(base));
    out.push('/');
    push_all(&mut out, &str_to_chars(name.as_str()));
    proof {
        assert(out@ =~= spec_cache_path(base@, provider, code@, language@));
    }
    chars_to_string(&out)
}

/// One stored payload with the time it was stored.
pub struct CacheEntry {
    pub provider: Provider,
    pub code: String,
    pub language: String,
    pub payload: String,
    pub mtime_ms: i64,
}

/// The last-known-good raw payload per `(provider, code, language)`, with
/// the store time as the freshness marker.
pub struct PayloadCache {
    pub entries: Vec<CacheEntry>,
}

pub open spec fn entry_key(e: CacheEntry) -> (Provider, Seq<char>, Seq<char>) {
    (e.provider, e.code@, e.language@)
}

/// The store as a map from key to `(payload, mtime)`.
pub open spec fn cache_map_of(entries: Seq<CacheEntry>) -> Map<
    (Provider, Seq<char>, Seq<char>),
    (Seq<char>, i64),
>
    decreases entries.len(),
{
    if entries.len() == 0 {
        Map::empty()
    } else {
        cache_map_of(entries.drop_last()).insert(
            entry_key(entries.last()),
            (entries.last().payload@, entries.last().mtime_ms),
        )
    }
}

impl PayloadCache {
    pub open spec fn view_map(&self) -> Map<(Provider, Seq<char>, Seq<char>), (Seq<char>, i64)> {
        cache_map_of(self.entries@)
    }

    /// No two entries share a key, so each key names one entry.
    pub open spec fn wf(&self) -> bool {
        forall|i: int, j: int|
            0 <= i < j < self.entries@.len() ==> entry_key(#[trigger] self.entries@[i])
                != entry_key(#[trigger] self.entries@[j])
    }

    pub fn new() -> (r: PayloadCache)
        ensures
            r.wf(),
            r.view_map() == Map::<(Provider, Seq<char>, Seq<char>), (Seq<char>, i64)>::empty(),
    {
        let r = PayloadCache { entries: Vec::new() };
        proof {
            assert(r.entries@.len() == 0);
        }
        r
    }

    fn find(&self, provider: Provider, code: &str, language: &str) -> (r: Option<usize>)
        requires
            self.wf(),
        ensures
            match r {
                Some(i) => i < self.entries@.len() && entry_key(self.entries@[i as int]) == (
                    provider,
                    code@,
                    language@,
                ),
                None => forall|i: int|
                    0 <= i < self.entries@.len() ==> entry_key(#[trigger] self.entries@[i]) != (
                        provider,
                        code@,
                        language@,
                    ),
            },
    {
        let mut i: usize = 0;
        while i < self.entries.len()
            invariant
                i <= self.entries@.len(),
                forall|j: int|
                    0 <= j < i ==> entry_key(#[trigger] self.entries@[j]) != (
                        provider,
                        code@,
                        language@,
                    ),
            decreases self.entries@.len() - i,
        {
            let e = &self.entries[i];
            let same_provider = match (e.provider, provider) {
                (Provider::Compass, Provider::Compass) => true,
                (Provider::CompassRss, Provider::CompassRss) => true,
                (Provider::Antell, Provider::Antell) => true,
                (Provider::HuomenJson, Provider::HuomenJson) => true,
                _ => false,
            };
            if same_provider && crate::text::str_eq(e.code.as_str(), code) && crate::text::str_eq(
                e.language.as_str(),
                language,
            ) {
                return Some(i);
            }
            i += 1;
        }
        None
    }

    /// The stored payload for a key, if one was written.
    pub fn read(&self, provider: Provider, code: &str, language: &str) -> (r: Option<&String>)
        requires
            self.wf(),
        ensures
            match r {
                Some(p) => self.view_map().contains_key((provider, code@, language@))
                    && self.view_map()[(provider, code@, language@)].0 == p@,
                None => !self.view_map().contains_key((provider, code@, language@)),
            },
    {
        match self.find(provider, code, language) {
            Some(i) => {
                proof {
                    lemma_cache_map_at(self.entries@, i as int);
                }
                Some(&self.entries[i].payload)
            },
            None => {
                proof {
                    lemma_cache_map_absent(self.entries@, (provider, code@, language@));
                }
                None
            },
        }
    }

    /// The store time for a key, if one was written.
    pub fn mtime_ms(&self, provider: Provider, code: &str, language: &str) -> (r: Option<i64>)
        requires
            self.wf(),
        ensures
            match r {
                Some(t) => self.view_map().contains_key((provider, code@, language@))
                    && self.view_map()[(provider, code@, language@)].1 == t,
                None => !self.view_map().contains_key((provider, code@, language@)),
            },
    {
        match self.find(provider, code, language) {
            Some(i) => {
                proof {
                    lemma_cache_map_at(self.entries@, i as int);
                }
                Some(self.entries[i].mtime_ms)
            },
            None => {
                proof {
                    lemma_cache_map_absent(self.entries@, (provider, code@, language@));
                }
                None
            },
        }
    }

    /// Store a payload under a key, overwriting any previous payload.
    pub fn write(
        &mut self,
        provider: Provider,
        code: &str,
        language: &str,
        payload: &str,
        now_ms: i64,
    )
        requires
            old(self).wf(),
        ensures
            final(self).wf(),
            final(self).view_map() == old(self).view_map().insert(
                (provider, code@, language@),
                (payload@, now_ms),
            ),
    {
        let entry = CacheEntry {
            provider,
            code: String::from_str(code),
            language: String::from_str(language),
            payload: String::from_str(payload),
            mtime_ms: now_ms,
        };
        match self.find(provider, code, language) {
            Some(i) => {
                let ghost pre = self.entries@;
                self.entries.set(i, entry);
                proof {
                    lemma_cache_map_update(pre, i as int, self.entries@);
                }
            },
            None => {
                let ghost pre = self.entries@;
                self.entries.push(entry);
                proof {
                    assert(self.entries@.drop_last() =~= pre);
                    assert forall|i: int, j: int| 0 <= i < j < self.entries@.len() implies
                        entry_key(#[trigger] self.entries@[i]) != entry_key(
                        #[trigger] self.entries@[j],
                    ) by {
                        if j < self.entries@.len() - 1 {
                            assert(self.entries@[i] == pre[i] && self.entries@[j] == pre[j]);
                        } else {
                            assert(self.entries@[i] == pre[i]);
                        }
                    }
                }
            },
        }
    }
}

proof fn lemma_cache_map_at(entries: Seq<CacheEntry>, i: int)
    requires
        0 <= i < entries.len(),
        forall|a: int, b: int|
            0 <= a < b < entries.len() ==> entry_key(#[trigger] entries[a]) != entry_key(
                #[trigger] entries[b],
            ),
    ensures
        cache_map_of(entries).contains_key(entry_key(entries[i])),
        cache_map_of(entries)[entry_key(entries[i])] == (entries[i].payload@, entries[i].mtime_ms),
    decreases entries.len(),
{
    if entries.len() > 0 {
        let last = entries.len() - 1;
        if i == last {
        } else {
            assert forall|a: int, b: int|
                0 <= a < b < entries.drop_last().len() implies entry_key(
                #[trigger] entries.drop_last()[a],
            ) != entry_key(#[trigger] entries.drop_last()[b]) by {
                assert(entries.drop_last()[a] == entries[a]);
                assert(entries.drop_last()[b] == entries[b]);
            }
            assert(entries.drop_last()[i] == entries[i]);
            lemma_cache_map_at(entries.drop_last(), i);
            assert(entry_key(entries[i]) != entry_key(entries[last]));
        }
    }
}

proof fn lemma_cache_map_absent(entries: Seq<CacheEntry>, key: (Provider, Seq<char>, Seq<char>))
    requires
        forall|i: int| 0 <= i < entries.len() ==> entry_key(#[trigger] entries[i]) != key,
    ensures
        !cache_map_of(entries).contains_key(key),
    decreases entries.len(),
{
    if entries.len() > 0 {
        assert forall|i: int| 0 <= i < entries.drop_last().len() implies entry_key(
            #[trigger] entries.drop_last()[i],
        ) != key by {
            assert(entries.drop_last()[i] == entries[i]);
        }
        lemma_cache_map_absent(entries.drop_last(), key);
    }
}

proof fn lemma_cache_map_update(pre: Seq<CacheEntry>, i: int, post: Seq<CacheEntry>)
    requires
        0 <= i < pre.len(),
        post.len() == pre.len(),
        forall|j: int| 0 <= j < pre.len() && j != i ==> post[j] == pre[j],
        entry_key(post[i]) == entry_key(pre[i]),
        forall|a: int, b: int|
            0 <= a < b < pre.len() ==> entry_key(#[trigger] pre[a]) != entry_key(
                #[trigger] pre[b],
            ),
    ensures
        forall|a: int, b: int|
            0 <= a < b < post.len() ==> entry_key(#[trigger] post[a]) != entry_key(
                #[trigger] post[b],
            ),
        cache_map_of(post) == cache_map_of(pre).insert(
            entry_key(post[i]),
            (post[i].payload@, post[i].mtime_ms),
        ),
    decreases pre.len(),
{
    assert forall|a: int, b: int| 0 <= a < b < post.len() implies entry_key(#[trigger] post[a])
        != entry_key(#[trigger] post[b]) by {
        assert(entry_key(post[a]) == entry_key(pre[a]) && entry_key(post[b]) == entry_key(pre[b]));
    }
    let last = pre.len() - 1;
    if i == last {
        assert(post.drop_last() =~= pre.drop_last());
        assert(cache_map_of(post) == cache_map_of(pre.drop_last()).insert(
            entry_key(post[i]),
            (post[i].payload@, post[i].mtime_ms),
        ));
        assert(cache_map_of(pre) == cache_map_of(pre.drop_last()).insert(
            entry_key(pre[i]),
            (pre[i].payload@, pre[i].mtime_ms),
        ));
        assert(cache_map_of(pre.drop_last()).insert(
            entry_key(post[i]),
            (post[i].payload@, post[i].mtime_ms),
        ) =~= cache_map_of(pre.drop_last()).insert(
            entry_key(pre[i]),
            (pre[i].payload@, pre[i].mtime_ms),
        ).insert(entry_key(post[i]), (post[i].payload@, post[i].mtime_ms)));
    } else {
        assert forall|a: int, b: int|
            0 <= a < b < pre.drop_last().len() implies entry_key(#[trigger] pre.drop_last()[a])
            != entry_key(#[trigger] pre.drop_last()[b]) by {
            assert(pre.drop_last()[a] == pre[a] && pre.drop_last()[b] == pre[b]);
        }
        assert forall|j: int| 0 <= j < pre.drop_last().len() && j != i implies post.drop_last()[j]
            == pre.drop_last()[j] by {
            assert(post.drop_last()[j] == post[j] && pre.drop_last()[j] == pre[j]);
        }
        assert(post.drop_last()[i] == post[i] && pre.drop_last()[i] == pre[i]);
        lemma_cache_map_update(pre.drop_last(), i, post.drop_last());
        assert(post.last() == pre.last());
        assert(entry_key(pre[i]) != entry_key(pre[last]));
        assert(cache_map_of(post) == cache_map_of(post.drop_last()).insert(
            entry_key(pre.last()),
            (pre.last().payload@, pre.last().mtime_ms),
        ));
        assert(cache_map_of(pre.drop_last()).insert(
            entry_key(post[i]),
            (post[i].payload@, post[i].mtime_ms),
        ).insert(entry_key(pre.last()), (pre.last().payload@, pre.last().mtime_ms))
            =~= cache_map_of(pre.drop_last()).insert(
            entry_key(pre.last()),
            (pre.last().payload@, pre.last().mtime_ms),
        ).insert(entry_key(post[i]), (post[i].payload@, post[i].mtime_ms)));
    }
}

/// Law: the store behaves as a map. Writing a key and reading it back
/// returns exactly the payload written; a key never written stays absent,
/// whatever else was written under other keys.
pub proof fn lemma_cache_round_trip(
    m: Map<(Provider, Seq<char>, Seq<char>), (Seq<char>, i64)>,
    key: (Provider, Seq<char>, Seq<char>),
    payload: Seq<char>,
    now_ms: i64,
    other: (Provider, Seq<char>, Seq<char>),
)
    requires
        other != key,
    ensures
        m.insert(key, (payload, now_ms)).contains_key(key),
        m.insert(key, (payload, now_ms))[key].0 == payload,
        !m.contains_key(other) ==> !m.insert(key, (payload, now_ms)).contains_key(other),
{
}

} // verus!
