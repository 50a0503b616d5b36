//! Where a cache file lives and when it is fresh. Reading and writing the
//! file is the caller's.
use vstd::prelude::*;

use crate::hash::{hash_list_to_str, hex_of, sip_hash_of_list};
use crate::text::{last_slash, views};

verus! {

broadcast use vstd::string::to_string_from_display_ensures_for_str;

/// The path and the freshness rules of one cache file.
#[derive(Debug)]
pub struct CacheManagerBuilder {
    pub cache_file_path: String,
    pub cache_keys: Vec<String>,
    /// How long the file stays fresh, in milliseconds.
    pub fresh_duration: Option<u64>,
    /// Files whose age also bounds the freshness.
    pub fresh_files: Vec<String>,
}

impl CacheManagerBuilder {
    /// A builder for `cache_file_path`, keyed by the library's version.
    pub fn new(cache_file_path: &str) -> (r: CacheManagerBuilder)
        ensures
            r.cache_file_path@ == cache_file_path@,
            views(r.cache_keys@) == seq![crate::version::VERSION@],
            r.fresh_duration is None,
            r.fresh_files@.len() == 0,
    {
        let keys = vec![crate::version::version().to_string()];
        assert(views(keys@) =~= seq![crate::version::VERSION@]);
        CacheManagerBuilder {
            cache_file_path: cache_file_path.to_string(),
            cache_keys: keys,
            fresh_duration: None,
            fresh_files: Vec::new(),
        }
    }

    /// The cache goes stale when `path` changes.
    pub fn with_fresh_file(self, path: String) -> (r: CacheManagerBuilder)
        ensures
            r.fresh_files@ == self.fresh_files@.push(path),
            r.cache_file_path == self.cache_file_path,
            r.cache_keys == self.cache_keys,
            r.fresh_duration == self.fresh_duration,
    {
        let mut s = self;
        s.fresh_files.push(path);
        s
    }

    /// The first five hexadecimal digits of the hash of the keys.
    pub fn cache_key(&self) -> (r: String)
        ensures
            r@ == take5(hex_of(sip_hash_of_list(views(self.cache_keys@)) as nat)),
    {
        let h = hash_list_to_str(&self.cache_keys);
        let n = h.as_str().unicode_len();
        let k = if n < 5 { n } else { 5 };
        h.as_str().substring_char(0, k).to_string()
    }

    /// The path of the cache file: its name `base.ext` becomes
    /// `base-key.ext`; `None` where the name has no extension.
    pub fn build_path(&self) -> (r: Option<String>)
        ensures
            r is Some <==> spec_split_file_name(self.cache_file_path@) is Some,
            r matches Some(p) ==> {
                let (base, ext) = spec_split_file_name(self.cache_file_path@)->0;
                p@ == dir_prefix(self.cache_file_path@) + base + seq!['-']
                    + take5(hex_of(sip_hash_of_list(views(self.cache_keys@)) as nat)) + seq!['.'] + ext
            },
    {
        match split_file_name(self.cache_file_path.as_str()) {
            None => None,
            Some((base, ext)) => {
                let key = self.cache_key();
                let mut p = dir_prefix_exec(self.cache_file_path.as_str());
                p.append(base.as_str());
                p.append("-");
                p.append(key.as_str());
                p.append(".");
                p.append(ext.as_str());
                proof {
                    reveal_strlit("-");
                    reveal_strlit(".");
                }
                Some(p)
            },
        }
    }
}

pub open spec fn take5(s: Seq<char>) -> Seq<char> {
    if s.len() < 5 { s } else { s.subrange(0, 5) }
}

/// What comes before the file name of `p`: up to its last `/`, included.
pub open spec fn dir_prefix(p: Seq<char>) -> Seq<char> {
    match last_slash(p, p.len() as int) {
        Some(k) => p.subrange(0, k + 1),
        None => Seq::empty(),
    }
}

/// The file name of `p`: what follows its last `/`.
pub open spec fn file_name(p: Seq<char>) -> Seq<char> {
    match last_slash(p, p.len() as int) {
        Some(k) => p.subrange(k + 1, p.len() as int),
        None => p,
    }
}

/// The position of the last `c` of `s` before `end`.
pub open spec fn last_of(s: Seq<char>, c: char, end: int) -> Option<int>
    decreases end,
{
    if end <= 0 {
        None
    } else if s[end - 1] == c {
        Some(end - 1)
    } else {
        last_of(s, c, end - 1)
    }
}

/// The file name of `p` split at its last `.`.
pub open spec fn spec_split_file_name(p: Seq<char>) -> Option<(Seq<char>, Seq<char>)> {
    let name = file_name(p);
    match last_of(name, '.', name.len() as int) {
        Some(k) => Some((name.subrange(0, k), name.subrange(k + 1, name.len() as int))),
        None => None,
    }
}

fn last_slash_exec(p: &str) -> (r: Option<usize>)
    ensures
        r matches Some(k) ==> last_slash(p@, p@.len() as int) == Some(k as int) && k < p@.len(),
        r is None ==> last_slash(p@, p@.len() as int) is None,
{
    let n = p.unicode_len();
    let mut end: usize = n;
    while end > 0
        invariant
            n == p@.len(),
            end <= n,
            last_slash(p@, n as int) == last_slash(p@, end as int),
        decreases end,
    {
        if p.get_char(end - 1) == '/' {
            return Some(end - 1);
        }
        end -= 1;
    }
    None
}

/// The file name of `p`.
pub fn file_name_exec(p: &str) -> (r: String)
    ensures
        r@ == file_name(p@),
{
    let n = p.unicode_len();
    match last_slash_exec(p) {
        Some(k) => p.substring_char(k + 1, n).to_string(),
        None => p.to_string(),
    }
}

fn dir_prefix_exec(p: &str) -> (r: String)
    ensures
        r@ == dir_prefix(p@),
{
    let n = p.unicode_len();
    match last_slash_exec(p) {
        Some(k) => p.substring_char(0, k + 1).to_string(),
        None => String::new(),
    }
}

/// The base name and extension of the file of `path`.
pub fn split_file_name(path: &str) -> (r: Option<(String, String)>)
    ensures
        r is Some <==> spec_split_file_name(path@) is Some,
        r matches Some(be) ==> Some((be.0@, be.1@)) == spec_split_file_name(path@),
{
    let n = path.unicode_len();
    let name = match last_slash_exec(path) {
        Some(k) => path.substring_char(k + 1, n).to_string(),
        None => path.to_string(),
    };
    let m = name.as_str().unicode_len();
    let mut end: usize = m;
    while end > 0
        invariant
            m == name@.len(),
            name@ == file_name(path@),
            end <= m,
            last_of(name@, '.', m as int) == last_of(name@, '.', end as int),
        decreases end,
    {
        if name.as_str().get_char(end - 1) == '.' {
            let k = end - 1;
            let base = name.as_str().substring_char(0, k).to_string();
            let ext = name.as_str().substring_char(k + 1, m).to_string();
            return Some((base, ext));
        }
        end -= 1;
    }
    None
}

pub open spec fn spec_freshest(fresh_duration: Option<u64>, ages: Seq<u64>) -> Option<u64>
    decreases ages.len(),
{
    if ages.len() == 0 {
        fresh_duration
    } else {
        let f = spec_freshest(fresh_duration, ages.drop_last());
        let a = ages.last();
        Some(match f {
            None => a,
            Some(x) => if a < x { a } else { x },
        })
    }
}

/// The shortest of the configured freshness and the ages of the fresh
/// files (in milliseconds; an unreadable file counts as age zero).
pub fn freshest_duration(fresh_duration: Option<u64>, ages: &Vec<u64>) -> (r: Option<u64>)
    ensures
        r == spec_freshest(fresh_duration, ages@),
{
    let mut f = fresh_duration;
    let mut i: usize = 0;
    while i < ages.len()
        invariant
            i <= ages@.len(),
            f == spec_freshest(fresh_duration, ages@.subrange(0, i as int)),
        decreases ages@.len() - i,
    {
        assert(ages@.subrange(0, i as int + 1).drop_last() =~= ages@.subrange(0, i as int));
        let a = ages[i];
        f = Some(match f {
            None => a,
            Some(x) => if a < x { a } else { x },
        });
        i += 1;
    }
    assert(ages@.subrange(0, ages@.len() as int) =~= ages@);
    f
}

/// A cache file is fresh when it exists and, where a freshness bound and
/// its age are known, is younger than the bound.
pub fn is_fresh(exists: bool, freshest: Option<u64>, age: Option<u64>) -> (r: bool)
    ensures
        r == (exists && match (freshest, age) {
            (Some(f), Some(a)) => a < f,
            _ => true,
        }),
{
    if !exists {
        return false;
    }
    match (freshest, age) {
        (Some(f), Some(a)) => a < f,
        _ => true,
    }
}

} // verus!
