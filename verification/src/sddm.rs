//! The one-time root setup that points the SDDM login screen at Papery's
//! current wallpaper reads three small text formats: `/etc/passwd` (to find
//! the invoking user's ids), the SDDM configuration (to find the current
//! theme) and the theme's `theme.conf` (to find its background image). The
//! application does the file work; this module reads the formats.

use vstd::prelude::*;

use crate::text::{
    chars_eq_str, lines, lines_of, parse_u32, parse_unsigned, split_at_char, split_chars,
    starts_with, string_of, strip_prefix_chars, trim, trim_char, trim_char_chars, trim_chars,
    vec_views,
};

verus! {

/// The uid and gid a `passwd` line gives `user`: its first field is the
/// user name, and its third and fourth fields parse as numbers.
pub open spec fn passwd_line_ids(line: Seq<char>, user: Seq<char>) -> Option<(u32, u32)> {
    let f = split_at_char(line, ':');
    if f[0] == user && f.len() > 3 {
        match (parse_unsigned(f[2], u32::MAX as nat), parse_unsigned(f[3], u32::MAX as nat)) {
            (Some(u), Some(g)) => Some((u as u32, g as u32)),
            _ => None,
        }
    } else {
        None
    }
}

/// The first of `lines` that gives `user` ids (see [`passwd_line_ids`]).
pub open spec fn first_ids(ls: Seq<Seq<char>>, user: Seq<char>) -> Option<(u32, u32)>
    decreases ls.len(),
{
    if ls.len() == 0 {
        None
    } else {
        match passwd_line_ids(ls[0], user) {
            Some(ids) => Some(ids),
            None => first_ids(ls.drop_first(), user),
        }
    }
}

/// The first value of `key` among the lines: what follows the key on the
/// first line that starts with it, white space trimmed.
pub open spec fn first_value(ls: Seq<Seq<char>>, key: Seq<char>) -> Option<Seq<char>>
    decreases ls.len(),
{
    if ls.len() == 0 {
        None
    } else if starts_with(ls[0], key) {
        Some(trim(ls[0].skip(key.len() as int)))
    } else {
        first_value(ls.drop_first(), key)
    }
}

/// The first trimmed line that starts with `key`, its value trimmed and
/// without surrounding `"`.
pub open spec fn first_quoted_value(ls: Seq<Seq<char>>, key: Seq<char>) -> Option<Seq<char>>
    decreases ls.len(),
{
    if ls.len() == 0 {
        None
    } else if starts_with(trim(ls[0]), key) {
        Some(trim_char(trim(trim(ls[0]).skip(key.len() as int)), '"'))
    } else {
        first_quoted_value(ls.drop_first(), key)
    }
}

fn line_ids(line: &Vec<char>, user: &str) -> (r: Option<(u32, u32)>)
    ensures
        r == passwd_line_ids(line@, user@),
{
    let f = split_chars(line, ':');
    proof {
        crate::text::lemma_split_nonempty(line@, ':');
    }
    assert(vec_views(f@)[0] == f@[0]@);
    if !chars_eq_str(&f[0], user) || f.len() <= 3 {
        return None;
    }
    assert(vec_views(f@)[2] == f@[2]@);
    assert(vec_views(f@)[3] == f@[3]@);
    let a = string_of(&f[2]);
    let b = string_of(&f[3]);
    match (parse_u32(a.as_str()), parse_u32(b.as_str())) {
        (Some(u), Some(g)) => Some((u, g)),
        _ => None,
    }
}

/// The uid and gid of `user` in the `passwd` file contents: from the first
/// line whose first field is the user's name and whose third and fourth
/// fields are numbers.
pub fn passwd_ids(passwd: &str, user: &str) -> (r: Option<(u32, u32)>)
    ensures
        r == first_ids(lines_of(passwd@), user@),
{
    let ls = lines(passwd);
    let ghost lv = lines_of(passwd@);
    assert(lv.skip(0) =~= lv);
    let mut i: usize = 0;
    while i < ls.len()
        invariant
            i <= ls@.len(),
            lv == lines_of(passwd@),
            vec_views(ls@) == lv,
            first_ids(lv.skip(i as int), user@) == first_ids(lv, user@),
        decreases ls@.len() - i,
    {
        assert(lv.skip(i as int)[0] == ls@[i as int]@);
        assert(lv.skip(i as int).drop_first() =~= lv.skip(i as int + 1));
        match line_ids(&ls[i], user) {
            Some(ids) => {
                return Some(ids);
            },
            None => {},
        }
        i = i + 1;
    }
    None
}

fn value_of_lines(ls: &Vec<Vec<char>>, key: &str) -> (r: Option<String>)
    ensures
        match r {
            Some(v) => first_value(vec_views(ls@), key@) == Some(v@),
            None => first_value(vec_views(ls@), key@) is None,
        },
{
    let ghost lv = vec_views(ls@);
    assert(lv.skip(0) =~= lv);
    let mut i: usize = 0;
    while i < ls.len()
        invariant
            i <= ls@.len(),
            lv == vec_views(ls@),
            first_value(lv.skip(i as int), key@) == first_value(lv, key@),
        decreases ls@.len() - i,
    {
        assert(lv.skip(i as int)[0] == ls@[i as int]@);
        assert(lv.skip(i as int).drop_first() =~= lv.skip(i as int + 1));
        match strip_prefix_chars(&ls[i], key) {
            Some(rest) => {
                let t = trim_chars(&rest);
                return Some(string_of(&t));
            },
            None => {},
        }
        i = i + 1;
    }
    None
}

/// The current SDDM theme in an SDDM configuration: the value of the
/// first line starting with `Current=`, trimmed.
pub fn current_theme(conf: &str) -> (r: Option<String>)
    ensures
        match r {
            Some(v) => first_value(lines_of(conf@), "Current="@) == Some(v@),
            None => first_value(lines_of(conf@), "Current="@) is None,
        },
{
    let ls = lines(conf);
    value_of_lines(&ls, "Current=")
}

/// The background image of an SDDM theme in its `theme.conf`: the value of
/// the first line that starts with `Background=` once trimmed, trimmed and
/// without surrounding quotes.
pub fn theme_background(conf: &str) -> (r: Option<String>)
    ensures
        match r {
            Some(v) => first_quoted_value(lines_of(conf@), "Background="@) == Some(v@),
            None => first_quoted_value(lines_of(conf@), "Background="@) is None,
        },
{
    let ls = lines(conf);
    let ghost lv = vec_views(ls@);
    assert(lv.skip(0) =~= lv);
    let mut i: usize = 0;
    while i < ls.len()
        invariant
            i <= ls@.len(),
            lv == vec_views(ls@),
            lv == lines_of(conf@),
            first_quoted_value(lv.skip(i as int), "Background="@) == first_quoted_value(lv, "Background="@),
        decreases ls@.len() - i,
    {
        assert(lv.skip(i as int)[0] == ls@[i as int]@);
        assert(lv.skip(i as int).drop_first() =~= lv.skip(i as int + 1));
        let t = trim_chars(&ls[i]);
        match strip_prefix_chars(&t, "Background=") {
            Some(rest) => {
                let v = trim_chars(&rest);
                let q = trim_char_chars(&v, '"');
                return Some(string_of(&q));
            },
            None => {},
        }
        i = i + 1;
    }
    None
}

} // verus!
