//! Keyword-safe renaming shared by input-object fields, variables and type
//! names: a name that collides with a reserved word of the target language
//! is renamed, and a serialization directive keeps the original wire name.

use vstd::prelude::*;
use crate::names::{append_str, opt_view, str_eq};

verus! {

/// Whether a name is a reserved word of the target language.
pub open spec fn is_reserved(n: Seq<char>) -> bool {
    ||| n == "abstract"@ ||| n == "as"@ ||| n == "async"@ ||| n == "await"@
    ||| n == "become"@ ||| n == "box"@ ||| n == "break"@ ||| n == "const"@
    ||| n == "continue"@ ||| n == "crate"@ ||| n == "do"@ ||| n == "dyn"@
    ||| n == "else"@ ||| n == "enum"@ ||| n == "false"@ ||| n == "final"@
    ||| n == "fn"@ ||| n == "for"@ ||| n == "if"@ ||| n == "impl"@
    ||| n == "in"@ ||| n == "let"@ ||| n == "loop"@ ||| n == "macro"@
    ||| n == "match"@ ||| n == "mod"@ ||| n == "move"@ ||| n == "mut"@
    ||| n == "override"@ ||| n == "priv"@ ||| n == "pub"@ ||| n == "ref"@
    ||| n == "return"@ ||| n == "self"@ ||| n == "Self"@ ||| n == "static"@
    ||| n == "struct"@ ||| n == "super"@ ||| n == "trait"@ ||| n == "true"@
    ||| n == "try"@ ||| n == "type"@ ||| n == "typeof"@ ||| n == "unsafe"@
    ||| n == "unsized"@ ||| n == "use"@ ||| n == "virtual"@ ||| n == "where"@
    ||| n == "while"@ ||| n == "yield"@
}

/// Decides whether a name is a reserved word.
pub fn is_reserved_word(n: &str) -> (r: bool)
    ensures
        r == is_reserved(n@),
{
    str_eq(n, "abstract") || str_eq(n, "as") || str_eq(n, "async") || str_eq(n, "await")
        || str_eq(n, "become") || str_eq(n, "box") || str_eq(n, "break") || str_eq(n, "const")
        || str_eq(n, "continue") || str_eq(n, "crate") || str_eq(n, "do") || str_eq(n, "dyn")
        || str_eq(n, "else") || str_eq(n, "enum") || str_eq(n, "false") || str_eq(n, "final")
        || str_eq(n, "fn") || str_eq(n, "for") || str_eq(n, "if") || str_eq(n, "impl")
        || str_eq(n, "in") || str_eq(n, "let") || str_eq(n, "loop") || str_eq(n, "macro")
        || str_eq(n, "match") || str_eq(n, "mod") || str_eq(n, "move") || str_eq(n, "mut")
        || str_eq(n, "override") || str_eq(n, "priv") || str_eq(n, "pub") || str_eq(n, "ref")
        || str_eq(n, "return") || str_eq(n, "self") || str_eq(n, "Self") || str_eq(n, "static")
        || str_eq(n, "struct") || str_eq(n, "super") || str_eq(n, "trait") || str_eq(n, "true")
        || str_eq(n, "try") || str_eq(n, "type") || str_eq(n, "typeof") || str_eq(n, "unsafe")
        || str_eq(n, "unsized") || str_eq(n, "use") || str_eq(n, "virtual") || str_eq(n, "where")
        || str_eq(n, "while") || str_eq(n, "yield")
}

/// The keyword-safe form of a name: a reserved word gets a trailing
/// underscore, any other name is kept as it is.
pub open spec fn keyword_safe(n: Seq<char>) -> Seq<char> {
    if is_reserved(n) {
        n.push('_')
    } else {
        n
    }
}

/// Renames a name that collides with a reserved word of the target
/// language, leaving every other name untouched.
pub fn keyword_replace(n: &str) -> (r: String)
    ensures
        r@ == keyword_safe(n@),
{
    let mut out = n.to_owned();
    if is_reserved_word(n) {
        append_str(&mut out, "_");
        proof {
            reveal_strlit("_");
            assert(out@ =~= n@.push('_'));
        }
    }
    out
}

/// The serialization directive for one renamed item: the original wire name
/// exactly when the safe name differs from it, nothing otherwise.
pub open spec fn rename_directive(original: Seq<char>, safe: Seq<char>) -> Option<Seq<char>> {
    if original == safe {
        Option::None
    } else {
        Option::Some(original)
    }
}

/// Builds the serialization directive that preserves an item's original
/// wire name across a rename.
pub fn field_rename_annotation(original: &str, safe: &str) -> (r: Option<String>)
    ensures
        opt_view(r) == rename_directive(original@, safe@),
{
    if str_eq(original, safe) {
        Option::None
    } else {
        Option::Some(original.to_owned())
    }
}

/// The name without its leading spaces.
pub open spec fn trim_left(s: Seq<char>) -> Seq<char>
    decreases s.len(),
{
    if s.len() > 0 && s[0] == ' ' {
        trim_left(s.drop_first())
    } else {
        s
    }
}

/// The name without its trailing spaces.
pub open spec fn trim_right(s: Seq<char>) -> Seq<char>
    decreases s.len(),
{
    if s.len() > 0 && s.last() == ' ' {
        trim_right(s.drop_last())
    } else {
        s
    }
}

/// The name without leading and trailing spaces.
pub open spec fn trim_spaces(s: Seq<char>) -> Seq<char> {
    trim_right(trim_left(s))
}

proof fn lemma_trim_left_at(s: Seq<char>, a: int)
    requires
        0 <= a <= s.len(),
        forall |k: int| 0 <= k < a ==> s[k] == ' ',
        a == s.len() || s[a] != ' ',
    ensures
        trim_left(s) == s.subrange(a, s.len() as int),
    decreases a,
{
    if a == 0 {
        if s.len() > 0 && s[0] == ' ' {
            assert(false);
        }
        assert(s.subrange(0, s.len() as int) =~= s);
    } else {
        assert(s[0] == ' ');
        let t = s.drop_first();
        assert forall |k: int| 0 <= k < a - 1 implies t[k] == ' ' by {
            assert(t[k] == s[k + 1]);
        }
        if a - 1 < t.len() {
            assert(t[a - 1] == s[a as int]);
        }
        lemma_trim_left_at(t, a - 1);
        assert(t.subrange(a - 1, t.len() as int) =~= s.subrange(a, s.len() as int));
    }
}

proof fn lemma_trim_right_at(s: Seq<char>, b: int)
    requires
        0 <= b <= s.len(),
        forall |k: int| b <= k < s.len() ==> s[k] == ' ',
        b == 0 || s[b - 1] != ' ',
    ensures
        trim_right(s) == s.subrange(0, b),
    decreases s.len(),
{
    if b == s.len() {
        if s.len() > 0 && s.last() == ' ' {
            assert(false);
        }
        assert(s.subrange(0, s.len() as int) =~= s);
    } else {
        assert(s.last() == ' ');
        let t = s.drop_last();
        lemma_trim_right_at(t, b);
        assert(t.subrange(0, b) =~= s.subrange(0, b));
    }
}

/// Removes leading and trailing spaces from a name.
pub fn trim_str(s: &str) -> (r: String)
    ensures
        r@ == trim_spaces(s@),
{
    let n = s.unicode_len();
    let mut a: usize = 0;
    while a < n && s.get_char(a) == ' '
        invariant
            a <= n,
            n == s@.len(),
            forall |k: int| 0 <= k < a ==> s@[k] == ' ',
        decreases n - a,
    {
        a = a + 1;
    }
    if a == n {
        proof {
            lemma_trim_left_at(s@, a as int);
            assert(trim_left(s@) =~= Seq::<char>::empty());
            lemma_trim_right_at(trim_left(s@), 0);
            assert(trim_spaces(s@) =~= Seq::<char>::empty());
        }
        return String::new();
    }
    let mut b: usize = n;
    while b > a && s.get_char(b - 1) == ' '
        invariant
            a <= b <= n,
            n == s@.len(),
            forall |k: int| b <= k < n ==> s@[k] == ' ',
            forall |k: int| 0 <= k < a ==> s@[k] == ' ',
            a < n,
            s@[a as int] != ' ',
        decreases b,
    {
        b = b - 1;
    }
    let piece = s.substring_char(a, b);
    proof {
        lemma_trim_left_at(s@, a as int);
        let t = s@.subrange(a as int, s@.len() as int);
        assert forall |k: int| (b - a) <= k < t.len() implies t[k] == ' ' by {
            assert(t[k] == s@[k + a]);
        }
        assert(b == a || t[b - a - 1] == s@[b - 1]);
        lemma_trim_right_at(t, b - a);
        assert(t.subrange(0, b - a) =~= s@.subrange(a as int, b as int));
    }
    piece.to_owned()
}

/// The comma-separated names in `s` after `cur`, each trimmed of
/// surrounding spaces: the accumulator `cur` collects the characters of
/// the segment being read.
pub open spec fn split_acc(s: Seq<char>, cur: Seq<char>) -> Seq<Seq<char>>
    decreases s.len(),
{
    if s.len() == 0 {
        seq![trim_spaces(cur)]
    } else if s[0] == ',' {
        seq![trim_spaces(cur)] + split_acc(s.drop_first(), Seq::<char>::empty())
    } else {
        split_acc(s.drop_first(), cur.push(s[0]))
    }
}

/// The comma-separated names in a configured list, in order, each trimmed
/// of surrounding spaces.
pub open spec fn split_names(s: Seq<char>) -> Seq<Seq<char>> {
    split_acc(s, Seq::<char>::empty())
}

/// Splits a configured comma-separated list into its trimmed names.
pub fn parse_extra_derives(s: &str) -> (r: Vec<String>)
    ensures
        r.deep_view() == split_names(s@),
{
    let n = s.unicode_len();
    let mut r: Vec<String> = Vec::new();
    let mut start: usize = 0;
    let mut i: usize = 0;
    proof {
        assert(s@.subrange(0, n as int) =~= s@);
        assert(s@.subrange(0, 0) =~= Seq::<char>::empty());
        assert(r.deep_view() =~= Seq::<Seq<char>>::empty());
        assert(Seq::<Seq<char>>::empty() + split_acc(s@, Seq::<char>::empty()) =~= split_acc(
            s@,
            Seq::<char>::empty(),
        ));
    }
    while i < n
        invariant
            start <= i <= n,
            n == s@.len(),
            split_names(s@) == r.deep_view() + split_acc(
                s@.subrange(i as int, n as int),
                s@.subrange(start as int, i as int),
            ),
        decreases n - i,
    {
        let ghost rest = s@.subrange(i as int, n as int);
        let ghost cur = s@.subrange(start as int, i as int);
        if s.get_char(i) == ',' {
            let piece = s.substring_char(start, i);
            let t = trim_str(piece);
            let ghost before = r.deep_view();
            r.push(t);
            proof {
                assert(rest[0] == ',');
                assert(rest.drop_first() =~= s@.subrange(i + 1, n as int));
                assert(piece@ == cur);
                assert(r.deep_view() =~= before.push(trim_spaces(cur)));
                assert(before + (seq![trim_spaces(cur)] + split_acc(
                    rest.drop_first(),
                    Seq::<char>::empty(),
                )) =~= r.deep_view() + split_acc(
                    s@.subrange(i + 1, n as int),
                    Seq::<char>::empty(),
                ));
                assert(s@.subrange(i + 1, i + 1) =~= Seq::<char>::empty());
            }
            start = i + 1;
        } else {
            proof {
                assert(rest[0] == s@[i as int]);
                assert(rest[0] != ',');
                assert(rest.drop_first() =~= s@.subrange(i + 1, n as int));
                assert(cur.push(s@[i as int]) =~= s@.subrange(start as int, i + 1));
            }
        }
        i = i + 1;
    }
    let piece = s.substring_char(start, n);
    let t = trim_str(piece);
    let ghost before = r.deep_view();
    r.push(t);
    proof {
        assert(s@.subrange(n as int, n as int).len() == 0);
        assert(piece@ == s@.subrange(start as int, n as int));
        assert(r.deep_view() =~= before.push(trim_spaces(s@.subrange(start as int, n as int))));
        assert(before + seq![trim_spaces(s@.subrange(start as int, n as int))] =~= r.deep_view());
    }
    r
}

/// The derive list for generated variables and input types: the configured
/// extra names, followed by the serialization derive every such type needs.
pub open spec fn variables_derives_of(extra: Option<Seq<char>>) -> Seq<Seq<char>> {
    match extra {
        Option::Some(s) => split_names(s).push("Serialize"@),
        Option::None => seq!["Serialize"@],
    }
}

/// Builds the derive list for generated variables and input types from the
/// configured comma-separated extras.
pub fn variables_derives(extra: Option<&str>) -> (r: Vec<String>)
    ensures
        r.deep_view() == variables_derives_of(match extra {
            Option::Some(s) => Option::Some(s@),
            Option::None => Option::<Seq<char>>::None,
        }),
{
    let mut r: Vec<String> = match extra {
        Option::Some(s) => parse_extra_derives(s),
        Option::None => Vec::new(),
    };
    let ghost before = r.deep_view();
    r.push("Serialize".to_owned());
    proof {
        assert(r.deep_view() =~= before.push("Serialize"@));
        assert(Seq::<Seq<char>>::empty().push("Serialize"@) =~= seq!["Serialize"@]);
    }
    r
}

} // verus!
