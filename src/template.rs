//! The variables a step's command and environment are rendered with, and
//! the rendering itself, through tera.
use vstd::prelude::*;

use crate::text::{parent_dir, parent_dir_exec, views};

verus! {

broadcast use vstd::string::to_string_from_display_ensures_for_str;

/// Template variables in the order they were set; a later setting of a
/// name wins over an earlier one.
#[derive(Debug, Clone)]
pub struct Context {
    pub text: Vec<(String, String)>,
    pub flags: Vec<(String, bool)>,
}

pub open spec fn pair_views(v: Seq<(String, String)>) -> Seq<(Seq<char>, Seq<char>)> {
    v.map_values(|p: (String, String)| (p.0@, p.1@))
}

pub open spec fn flag_views(v: Seq<(String, bool)>) -> Seq<(Seq<char>, bool)> {
    v.map_values(|p: (String, bool)| (p.0@, p.1))
}

/// `parts` joined with `sep` between each two.
pub open spec fn join(parts: Seq<Seq<char>>, sep: Seq<char>) -> Seq<char>
    decreases parts.len(),
{
    if parts.len() == 0 {
        Seq::empty()
    } else if parts.len() == 1 {
        parts[0]
    } else {
        join(parts.drop_last(), sep) + sep + parts.last()
    }
}

/// A character that needs no quoting for a POSIX shell.
pub open spec fn shell_safe(c: char) -> bool {
    ('a' <= c && c <= 'z') || ('A' <= c && c <= 'Z') || ('0' <= c && c <= '9')
        || c == '_' || c == '-' || c == '.' || c == '/' || c == '+' || c == ':' || c == '@' || c == '%' || c == '=' || c == ','
}

/// `s` with each single quote written as `'\''`.
pub open spec fn escape_quotes(s: Seq<char>) -> Seq<char>
    decreases s.len(),
{
    if s.len() == 0 {
        s
    } else {
        escape_quotes(s.drop_last()) + if s.last() == '\'' { seq!['\'', '\\', '\'', '\''] } else { seq![s.last()] }
    }
}

/// `s` as one word of a POSIX shell: as it is where every character is
/// safe, else in single quotes.
pub open spec fn sh_quote(s: Seq<char>) -> Seq<char> {
    if s.len() > 0 && forall|i: int| 0 <= i < s.len() ==> shell_safe(#[trigger] s[i]) {
        s
    } else {
        seq!['\''] + escape_quotes(s) + seq!['\'']
    }
}

pub fn sh_quote_exec(s: &str) -> (r: String)
    ensures
        r@ == sh_quote(s@),
{
    let n = s.unicode_len();
    let mut safe = n > 0;
    let mut i: usize = 0;
    while i < n
        invariant
            n == s@.len(),
            i <= n,
            safe == (n > 0 && forall|j: int| 0 <= j < i ==> shell_safe(#[trigger] s@[j])),
        decreases n - i,
    {
        let c = s.get_char(i);
        let ok = ('a' <= c && c <= 'z') || ('A' <= c && c <= 'Z') || ('0' <= c && c <= '9')
            || c == '_' || c == '-' || c == '.' || c == '/' || c == '+' || c == ':' || c == '@' || c == '%' || c == '=' || c == ',';
        safe = safe && ok;
        i += 1;
    }
    if safe {
        return s.to_string();
    }
    let mut out = "'".to_string();
    proof {
        reveal_strlit("'");
        reveal_strlit("'\\''");
        assert(s@.subrange(0, 0) =~= Seq::<char>::empty());
    }
    let mut k: usize = 0;
    while k < n
        invariant
            n == s@.len(),
            k <= n,
            out@ == seq!['\''] + escape_quotes(s@.subrange(0, k as int)),
        decreases n - k,
    {
        let ghost pre = s@.subrange(0, k as int + 1);
        assert(pre.drop_last() =~= s@.subrange(0, k as int));
        if s.get_char(k) == '\'' {
            out.append("'\\''");
            proof {
                reveal_strlit("'\\''");
            }
        } else {
            out.append(s.substring_char(k, k + 1));
        }
        assert(out@ =~= seq!['\''] + escape_quotes(pre));
        k += 1;
    }
    assert(s@.subrange(0, n as int) =~= s@);
    out.append("'");
    proof {
        reveal_strlit("'");
    }
    out
}

/// `parts` joined with single spaces.
fn join_spaced(parts: &Vec<String>) -> (r: String)
    ensures
        r@ == join(views(parts@), seq![' ']),
{
    let mut out = String::new();
    let mut i: usize = 0;
    while i < parts.len()
        invariant
            i <= parts@.len(),
            out@ == join(views(parts@.subrange(0, i as int)), seq![' ']),
        decreases parts@.len() - i,
    {
        let ghost pre = views(parts@.subrange(0, i as int + 1));
        assert(pre.drop_last() =~= views(parts@.subrange(0, i as int)));
        if i > 0 {
            out.append(" ");
            proof {
                reveal_strlit(" ");
            }
        }
        out.append(parts[i].as_str());
        assert(pre.last() == parts@[i as int]@);
        assert(i == 0 ==> pre.len() == 1 && views(parts@.subrange(0, i as int)).len() == 0);
        i += 1;
    }
    assert(parts@.subrange(0, parts@.len() as int) =~= parts@);
    out
}

impl Context {
    pub fn new() -> (r: Context)
        ensures
            r.text@.len() == 0,
            r.flags@.len() == 0,
    {
        Context { text: Vec::new(), flags: Vec::new() }
    }

    /// A copy of the context.
    pub fn copy(&self) -> (r: Context)
        ensures
            pair_views(r.text@) == pair_views(self.text@),
            flag_views(r.flags@) == flag_views(self.flags@),
    {
        let mut text: Vec<(String, String)> = Vec::new();
        let mut i: usize = 0;
        while i < self.text.len()
            invariant
                i <= self.text@.len(),
                pair_views(text@) == pair_views(self.text@.subrange(0, i as int)),
            decreases self.text@.len() - i,
        {
            let k = self.text[i].0.clone();
            let v = self.text[i].1.clone();
            assert(k@ == self.text@[i as int].0@ && v@ == self.text@[i as int].1@);
            let ghost before = text@;
            text.push((k, v));
            assert(pair_views(text@) =~= pair_views(before).push((self.text@[i as int].0@, self.text@[i as int].1@)));
            assert(pair_views(self.text@.subrange(0, i as int + 1)) =~= pair_views(self.text@.subrange(0, i as int)).push((self.text@[i as int].0@, self.text@[i as int].1@)));
            i += 1;
        }
        assert(self.text@.subrange(0, self.text@.len() as int) =~= self.text@);
        let mut flags: Vec<(String, bool)> = Vec::new();
        let mut j: usize = 0;
        while j < self.flags.len()
            invariant
                j <= self.flags@.len(),
                forall|t: int| 0 <= t < j ==> flags@[t].0@ == self.flags@[t].0@ && flags@[t].1 == self.flags@[t].1,
                flags@.len() == j,
            decreases self.flags@.len() - j,
        {
            flags.push((self.flags[j].0.clone(), self.flags[j].1));
            j += 1;
        }
        let r = Context { text, flags };
        assert(flag_views(r.flags@) =~= flag_views(self.flags@));
        r
    }

    /// Sets a text variable.
    pub fn insert(&mut self, key: &str, value: String)
        ensures
            pair_views(final(self).text@) == pair_views(old(self).text@).push((key@, value@)),
            flag_views(final(self).flags@) == flag_views(old(self).flags@),
    {
        let ghost before = self.text@;
        self.text.push((key.to_string(), value));
        assert(pair_views(self.text@) =~= pair_views(before).push((key@, self.text@.last().1@)));
    }

    /// Sets a boolean variable.
    pub fn insert_flag(&mut self, key: &str, value: bool)
        ensures
            final(self).text@ == old(self).text@,
            final(self).flags@.len() == old(self).flags@.len() + 1,
            final(self).flags@.last().0@ == key@,
            final(self).flags@.last().1 == value,
            forall|i: int| 0 <= i < old(self).flags@.len() ==> final(self).flags@[i] == old(self).flags@[i],
    {
        self.flags.push((key.to_string(), value));
    }

    /// Sets `globs` to the patterns joined with spaces.
    pub fn with_globs(&mut self, globs: &Vec<String>)
        ensures
            pair_views(final(self).text@) == pair_views(old(self).text@).push(("globs"@, join(views(globs@), seq![' ']))),
            flag_views(final(self).flags@) == flag_views(old(self).flags@),
    {
        let v = join_spaced(globs);
        proof {
            reveal_strlit("globs");
        }
        self.insert("globs", v);
    }

    /// Sets `files` to the files, each quoted for a POSIX shell, joined with
    /// spaces.
    pub fn with_files(&mut self, files: &Vec<String>)
        ensures
            pair_views(final(self).text@) == pair_views(old(self).text@).push(
                ("files"@, join(views(files@).map_values(|f: Seq<char>| sh_quote(f)), seq![' '])),
            ),
            flag_views(final(self).flags@) == flag_views(old(self).flags@),
    {
        let mut quoted: Vec<String> = Vec::new();
        let mut i: usize = 0;
        while i < files.len()
            invariant
                i <= files@.len(),
                views(quoted@) == views(files@.subrange(0, i as int)).map_values(|f: Seq<char>| sh_quote(f)),
            decreases files@.len() - i,
        {
            let q = sh_quote_exec(files[i].as_str());
            let ghost before = quoted@;
            quoted.push(q);
            assert(views(quoted@) =~= views(before).push(q@));
            assert(views(files@.subrange(0, i as int + 1)).map_values(|f: Seq<char>| sh_quote(f))
                =~= views(files@.subrange(0, i as int)).map_values(|f: Seq<char>| sh_quote(f)).push(q@));
            i += 1;
        }
        assert(files@.subrange(0, files@.len() as int) =~= files@);
        let v = join_spaced(&quoted);
        proof {
            reveal_strlit("files");
        }
        self.insert("files", v);
    }

    /// Sets `workspace` to the directory of the indicator file (`.` for an
    /// empty path) and `workspace_indicator` to the file.
    pub fn with_workspace_indicator(&mut self, workspace_indicator: &str)
        ensures
            pair_views(final(self).text@) == pair_views(old(self).text@)
                .push(("workspace"@, if workspace_indicator@.len() == 0 { "."@ } else { parent_dir(workspace_indicator@) }))
                .push(("workspace_indicator"@, workspace_indicator@)),
            flag_views(final(self).flags@) == flag_views(old(self).flags@),
    {
        let dir = if workspace_indicator.unicode_len() == 0 {
            ".".to_string()
        } else {
            parent_dir_exec(workspace_indicator)
        };
        proof {
            reveal_strlit("workspace");
            reveal_strlit("workspace_indicator");
            reveal_strlit(".");
        }
        self.insert("workspace", dir);
        self.insert("workspace_indicator", workspace_indicator.to_string());
    }
}

/// Relies on tera: Tera::render_str with a tera::Context holding the text
/// variables, then the flags, in order. Templates may call functions such
/// as `now()` or `get_env`, so nothing is stated of the text it returns.
#[verifier::external_body]
fn tera_render(input: &str, text: &Vec<(String, String)>, flags: &Vec<(String, bool)>) -> Result<String, String> {
    let mut ctx = tera::Context::new();
    for (k, v) in text.iter() {
        ctx.insert(k.as_str(), v);
    }
    for (k, b) in flags.iter() {
        ctx.insert(k.as_str(), b);
    }
    tera::Tera::default().render_str(input, &ctx).map_err(|e| e.to_string())
}

/// Renders a template with the context's variables.
pub fn render(input: &str, ctx: &Context) -> (r: Result<String, crate::error::Error>)
    ensures
        r matches Err(e) ==> e is Template,
{
    match tera_render(input, &ctx.text, &ctx.flags) {
        Ok(s) => Ok(s),
        Err(m) => Err(crate::error::Error::Template(m)),
    }
}

} // verus!
