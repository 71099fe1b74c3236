//! The settings application's own logic: finding its window, reading Niri config lines,
//! recognising keyboard shortcuts, and the settings it shows and writes.
use vstd::prelude::*;
use vstd::multiset::Multiset;
use vstd::relations::{sorted_by, total_ordering};
use crate::config::{Config, FollowMode};
use crate::text::{
    after_char, before_char, chars_contain, chars_eq_str, chars_of, chars_start_with, contains_seq,
    count_token, lower_chars, lower_seq, split_at_char, starts_with, str_eq, string_from_chars,
    string_push, token_len, trim_chars, trim_seq,
};

verus! {

/// Whether `a` comes before `b` or equals it, comparing character by character.
pub open spec fn lex_le(a: Seq<char>, b: Seq<char>) -> bool
    decreases a.len(),
{
    if a.len() == 0 {
        true
    } else if b.len() == 0 {
        false
    } else if a[0] != b[0] {
        a[0] < b[0]
    } else {
        lex_le(a.drop_first(), b.drop_first())
    }
}

proof fn lemma_lex_reflexive(a: Seq<char>)
    ensures
        lex_le(a, a),
    decreases a.len(),
{
    if a.len() > 0 {
        lemma_lex_reflexive(a.drop_first());
    }
}

proof fn lemma_lex_antisymmetric(a: Seq<char>, b: Seq<char>)
    requires
        lex_le(a, b),
        lex_le(b, a),
    ensures
        a == b,
    decreases a.len(),
{
    if a.len() > 0 && b.len() > 0 {
        lemma_lex_antisymmetric(a.drop_first(), b.drop_first());
        assert(a =~= seq![a[0]] + a.drop_first());
        assert(b =~= seq![b[0]] + b.drop_first());
    }
}

proof fn lemma_lex_transitive(a: Seq<char>, b: Seq<char>, c: Seq<char>)
    requires
        lex_le(a, b),
        lex_le(b, c),
    ensures
        lex_le(a, c),
    decreases a.len(),
{
    if a.len() > 0 && b.len() > 0 && c.len() > 0 && a[0] == b[0] && b[0] == c[0] {
        lemma_lex_transitive(a.drop_first(), b.drop_first(), c.drop_first());
    }
}

proof fn lemma_lex_total(a: Seq<char>, b: Seq<char>)
    ensures
        lex_le(a, b) || lex_le(b, a),
    decreases a.len(),
{
    if a.len() > 0 && b.len() > 0 && a[0] == b[0] {
        lemma_lex_total(a.drop_first(), b.drop_first());
    }
}

/// The order of modifier keys in a normalized shortcut: Super, Ctrl, Alt, Shift, then others.
pub open spec fn modifier_rank(s: Seq<char>) -> int {
    if s == "Super"@ {
        0
    } else if s == "Ctrl"@ {
        1
    } else if s == "Alt"@ {
        2
    } else if s == "Shift"@ {
        3
    } else {
        99
    }
}

/// The order of shortcut modifiers: by rank, then alphabetically.
pub open spec fn modifier_le(a: Seq<char>, b: Seq<char>) -> bool {
    modifier_rank(a) < modifier_rank(b) || (modifier_rank(a) == modifier_rank(b) && lex_le(a, b))
}

/// The order of shortcut modifiers, as a relation.
pub open spec fn modifier_order() -> spec_fn(Seq<char>, Seq<char>) -> bool {
    |a: Seq<char>, b: Seq<char>| modifier_le(a, b)
}

/// The order of modifier keys is a total order.
pub proof fn lemma_modifier_order()
    ensures
        total_ordering(modifier_order()),
{
    let leq = modifier_order();
    assert forall|x: Seq<char>| #[trigger] leq(x, x) by {
        lemma_lex_reflexive(x);
    }
    assert forall|x: Seq<char>, y: Seq<char>| #[trigger] leq(x, y) && #[trigger] leq(y, x) implies x == y by {
        lemma_lex_antisymmetric(x, y);
    }
    assert forall|x: Seq<char>, y: Seq<char>, z: Seq<char>| #[trigger] leq(x, y) && #[trigger] leq(y, z) implies leq(x, z) by {
        if modifier_rank(x) == modifier_rank(y) && modifier_rank(y) == modifier_rank(z) {
            lemma_lex_transitive(x, y, z);
        }
    }
    assert forall|x: Seq<char>, y: Seq<char>| #[trigger] leq(x, y) || #[trigger] leq(y, x) by {
        lemma_lex_total(x, y);
    }
}

fn rank_of(s: &Vec<char>) -> (r: u8)
    ensures
        r as int == modifier_rank(s@),
{
    if crate::text::chars_eq_str(s, "Super") {
        0
    } else if crate::text::chars_eq_str(s, "Ctrl") {
        1
    } else if crate::text::chars_eq_str(s, "Alt") {
        2
    } else if crate::text::chars_eq_str(s, "Shift") {
        3
    } else {
        99
    }
}

fn lex_le_exec(a: &Vec<char>, b: &Vec<char>) -> (r: bool)
    ensures
        r == lex_le(a@, b@),
{
    let mut i: usize = 0;
    assert(a@.skip(0) =~= a@);
    assert(b@.skip(0) =~= b@);
    while i < a.len() && i < b.len() && a[i] == b[i]
        invariant
            i <= a@.len(),
            i <= b@.len(),
            lex_le(a@, b@) == lex_le(a@.skip(i as int), b@.skip(i as int)),
        decreases a@.len() - i,
    {
        assert(a@.skip(i as int).drop_first() =~= a@.skip(i + 1));
        assert(b@.skip(i as int).drop_first() =~= b@.skip(i + 1));
        i = i + 1;
    }
    if i == a.len() {
        true
    } else if i == b.len() {
        false
    } else {
        a[i] < b[i]
    }
}

fn modifier_le_exec(a: &Vec<char>, b: &Vec<char>) -> (r: bool)
    ensures
        r == modifier_le(a@, b@),
{
    let ra = rank_of(a);
    let rb = rank_of(b);
    ra < rb || (ra == rb && lex_le_exec(a, b))
}

/// The modifiers in shortcut order.
fn sort_modifiers(mods: Vec<Vec<char>>) -> (r: Vec<Vec<char>>)
    ensures
        r@.map_values(|v: Vec<char>| v@) == mods@.map_values(|v: Vec<char>| v@).sort_by(modifier_order()),
{
    let ghost leq = modifier_order();
    let ghost input = mods@.map_values(|v: Vec<char>| v@);
    let mut out: Vec<Vec<char>> = Vec::new();
    let mut i: usize = 0;
    proof {
        lemma_modifier_order();
        broadcast use vstd::seq_lib::group_to_multiset_ensures;
        assert(input.take(0).to_multiset() =~= Multiset::<Seq<char>>::empty());
        assert(out@.map_values(|v: Vec<char>| v@).to_multiset() =~= Multiset::<Seq<char>>::empty());
    }
    while i < mods.len()
        invariant
            i <= mods@.len(),
            input == mods@.map_values(|v: Vec<char>| v@),
            leq == modifier_order(),
            total_ordering(leq),
            sorted_by(out@.map_values(|v: Vec<char>| v@), leq),
            out@.map_values(|v: Vec<char>| v@).to_multiset() == input.take(i as int).to_multiset(),
        decreases mods@.len() - i,
    {
        let x = mods[i].clone();
        let ghost before = out@.map_values(|v: Vec<char>| v@);
        let mut p: usize = 0;
        while p < out.len() && modifier_le_exec(&out[p], &x)
            invariant
                p <= out@.len(),
                before == out@.map_values(|v: Vec<char>| v@),
                forall|k: int| 0 <= k < p ==> modifier_le(#[trigger] before[k], x@),
            decreases out@.len() - p,
        {
            p = p + 1;
        }
        out.insert(p, x);
        proof {
            let after = out@.map_values(|v: Vec<char>| v@);
            assert(after =~= before.insert(p as int, x@));
            assert(x@ == input[i as int]);
            assert forall|a: int, b: int| 0 <= a < b < after.len() implies #[trigger] leq(after[a], after[b]) by {
                if b < p {
                    assert(after[a] == before[a] && after[b] == before[b]);
                } else if b == p {
                    assert(after[a] == before[a]);
                } else if a < p {
                    assert(after[a] == before[a] && after[b] == before[b - 1]);
                    assert(!modifier_le(before[p as int], x@));
                    assert(!leq(before[p as int], x@));
                    assert(leq(x@, before[p as int]));
                    if p < b - 1 {
                        assert(leq(before[p as int], before[b - 1]));
                    }
                    assert(leq(x@, before[b - 1]));
                    assert(modifier_le(before[a], x@));
                    assert(leq(before[a], x@));
                } else if a == p {
                    assert(after[b] == before[b - 1]);
                    assert(!modifier_le(before[p as int], x@));
                    assert(!leq(before[p as int], x@));
                    assert(leq(x@, before[p as int]));
                    if p < b - 1 {
                        assert(leq(before[p as int], before[b - 1]));
                    }
                } else {
                    assert(after[a] == before[a - 1] && after[b] == before[b - 1]);
                }
            }
            broadcast use vstd::seq_lib::group_to_multiset_ensures;
            vstd::seq_lib::to_multiset_insert(before, p as int, x@);
            assert(input.take(i + 1) =~= input.take(i as int).push(input[i as int]));
        }
        i = i + 1;
    }
    proof {
        let got = out@.map_values(|v: Vec<char>| v@);
        assert(input.take(mods@.len() as int) =~= input);
        input.lemma_sort_by_ensures(leq);
        vstd::seq_lib::lemma_sorted_unique(got, input.sort_by(leq), leq);
    }
    out
}

/// What follows a character is shorter than the text.
pub proof fn lemma_after_char_shorter(s: Seq<char>, c: char)
    ensures
        after_char(s, c) matches Some(r) ==> r.len() < s.len(),
    decreases s.len(),
{
    if s.len() > 0 && s[0] != c {
        lemma_after_char_shorter(s.drop_first(), c);
    }
}

/// The non-empty pieces of `s` between the separators `c`.
pub open spec fn pieces(s: Seq<char>, c: char) -> Seq<Seq<char>>
    decreases s.len(),
{
    let head = before_char(s, c);
    let tail = match after_char(s, c) {
        None => Seq::<Seq<char>>::empty(),
        Some(rest) => {
            proof {
                lemma_after_char_shorter(s, c);
            }
            pieces(rest, c)
        },
    };
    if head.len() > 0 {
        seq![head] + tail
    } else {
        tail
    }
}

/// The pieces joined with separator `c`.
pub open spec fn join_with(ps: Seq<Seq<char>>, c: char) -> Seq<char>
    decreases ps.len(),
{
    if ps.len() == 0 {
        Seq::empty()
    } else if ps.len() == 1 {
        ps[0]
    } else {
        join_with(ps.drop_last(), c) + seq![c] + ps.last()
    }
}

/// `Mod` stands for `Super`.
pub open spec fn canonical_modifier(p: Seq<char>) -> Seq<char> {
    if p == "Mod"@ {
        "Super"@
    } else {
        p
    }
}

/// A key binding in one form: its modifiers with `Mod` read as `Super`, in shortcut order,
/// then its key, joined with `+` (empty pieces dropped). A binding with no pieces is kept.
pub open spec fn normalized_bind(bind: Seq<char>) -> Seq<char> {
    let ps = pieces(bind, '+');
    if ps.len() == 0 {
        bind
    } else {
        let mods = ps.drop_last().map_values(|p: Seq<char>| canonical_modifier(p));
        join_with(mods.sort_by(modifier_order()).push(ps.last()), '+')
    }
}

fn split_pieces(v: &Vec<char>, c: char) -> (r: Vec<Vec<char>>)
    ensures
        r@.map_values(|p: Vec<char>| p@) == pieces(v@, c),
{
    let mut out: Vec<Vec<char>> = Vec::new();
    let mut k: usize = 0;
    assert(v@.skip(0) =~= v@);
    loop
        invariant
            k <= v@.len(),
            out@.map_values(|p: Vec<char>| p@) + pieces(v@.skip(k as int), c) == pieces(v@, c),
        decreases v@.len() - k,
    {
        let ghost rest = v@.skip(k as int);
        let (head, next) = split_at_char(v, k, c);
        let ghost before = out@.map_values(|p: Vec<char>| p@);
        if head.len() > 0 {
            out.push(head);
        }
        proof {
            let now = out@.map_values(|p: Vec<char>| p@);
            if head@.len() > 0 {
                assert(now =~= before.push(head@));
            } else {
                assert(now =~= before);
            }
        }
        match next {
            None => {
                proof {
                    let now = out@.map_values(|p: Vec<char>| p@);
                    if head@.len() > 0 {
                        assert(now + Seq::<Seq<char>>::empty() =~= before + (seq![head@] + Seq::<Seq<char>>::empty()));
                    } else {
                        assert(now + Seq::<Seq<char>>::empty() =~= before + Seq::<Seq<char>>::empty());
                    }
                    assert(now =~= now + Seq::<Seq<char>>::empty());
                }
                return out;
            },
            Some(n) => {
                proof {
                    lemma_after_char_shorter(rest, c);
                    let now = out@.map_values(|p: Vec<char>| p@);
                    let tail = pieces(v@.skip(n as int), c);
                    if head@.len() > 0 {
                        assert(now + tail =~= before + (seq![head@] + tail));
                    } else {
                        assert(now + tail =~= before + tail);
                    }
                }
                k = n;
            },
        }
    }
}

fn join_pieces(ps: &Vec<Vec<char>>, c: char) -> (r: String)
    ensures
        r@ == join_with(ps@.map_values(|p: Vec<char>| p@), c),
{
    let ghost all = ps@.map_values(|p: Vec<char>| p@);
    let mut s = String::new();
    let mut i: usize = 0;
    while i < ps.len()
        invariant
            i <= ps@.len(),
            all == ps@.map_values(|p: Vec<char>| p@),
            s@ == join_with(all.take(i as int), c),
        decreases ps@.len() - i,
    {
        let ghost prev = s@;
        if i > 0 {
            string_push(&mut s, c);
        }
        let p = &ps[i];
        let mut j: usize = 0;
        let ghost mid = s@;
        while j < p.len()
            invariant
                j <= p@.len(),
                s@ == mid + p@.take(j as int),
            decreases p@.len() - j,
        {
            string_push(&mut s, p[j]);
            j = j + 1;
            assert(s@ =~= mid + p@.take(j as int));
        }
        proof {
            assert(p@.take(p@.len() as int) =~= p@);
            assert(all.take(i + 1).drop_last() =~= all.take(i as int));
            assert(all.take(i + 1).last() == p@);
            if i == 0 {
                assert(s@ =~= join_with(all.take(1), c));
            } else {
                assert(s@ =~= join_with(all.take(i + 1), c));
            }
        }
        i = i + 1;
    }
    assert(all.take(ps@.len() as int) =~= all);
    s
}

/// A key binding in one form, so that `Mod+Shift+M` and `Super+Shift+M` compare equal.
pub fn normalize_shortcut_bind(bind: &str) -> (r: String)
    ensures
        r@ == normalized_bind(bind@),
{
    let chars = chars_of(bind);
    let mut parts = split_pieces(&chars, '+');
    if parts.len() == 0 {
        return bind.to_owned();
    }
    let ghost ps = parts@.map_values(|p: Vec<char>| p@);
    let key = parts.pop().unwrap();
    let mut mods: Vec<Vec<char>> = Vec::new();
    let mut i: usize = 0;
    proof {
        reveal_strlit("Super");
    }
    while i < parts.len()
        invariant
            i <= parts@.len(),
            parts@.len() + 1 == ps.len(),
            forall|k: int| 0 <= k < parts@.len() ==> #[trigger] parts@[k]@ == ps[k],
            mods@.map_values(|p: Vec<char>| p@) == ps.drop_last().take(i as int).map_values(|p: Seq<char>| canonical_modifier(p)),
        decreases parts@.len() - i,
    {
        let ghost before = mods@.map_values(|p: Vec<char>| p@);
        let item = if chars_eq_str(&parts[i], "Mod") {
            chars_of("Super")
        } else {
            let mut copy: Vec<char> = Vec::new();
            let mut j: usize = 0;
            while j < parts[i].len()
                invariant
                    i < parts@.len(),
                    j <= parts@[i as int]@.len(),
                    copy@ == parts@[i as int]@.take(j as int),
                decreases parts@[i as int]@.len() - j,
            {
                copy.push(parts[i][j]);
                j = j + 1;
                assert(copy@ =~= parts@[i as int]@.take(j as int));
            }
            assert(parts@[i as int]@.take(parts@[i as int]@.len() as int) =~= parts@[i as int]@);
            copy
        };
        proof {
            assert(ps.drop_last()[i as int] == ps[i as int]);
            assert(item@ == canonical_modifier(ps[i as int]));
        }
        let ghost iv = item@;
        mods.push(item);
        proof {
            assert(mods@.map_values(|p: Vec<char>| p@) =~= before.push(iv));
            assert(ps.drop_last().take(i + 1).map_values(|p: Seq<char>| canonical_modifier(p))
                =~= ps.drop_last().take(i as int).map_values(|p: Seq<char>| canonical_modifier(p)).push(canonical_modifier(ps.drop_last()[i as int])));
            assert(mods@.map_values(|p: Vec<char>| p@) =~= ps.drop_last().take(i + 1).map_values(|p: Seq<char>| canonical_modifier(p)));
        }
        i = i + 1;
    }
    proof {
        assert(ps.drop_last().take(parts@.len() as int) =~= ps.drop_last());
        assert(key@ == ps.last());
    }
    let mut sorted = sort_modifiers(mods);
    let ghost sv = sorted@.map_values(|p: Vec<char>| p@);
    sorted.push(key);
    proof {
        assert(sorted@.map_values(|p: Vec<char>| p@) =~= sv.push(ps.last()));
    }
    join_pieces(&sorted, '+')
}

/// Whether a trimmed config line is a comment.
pub open spec fn is_comment(t: Seq<char>) -> bool {
    starts_with(t, "//"@) || starts_with(t, "/-"@)
}

/// The file an `include` line of a Niri config names: the text between its first two
/// double quotes. Comments and other lines name none.
pub open spec fn include_target_spec(line: Seq<char>) -> Option<Seq<char>> {
    let t = trim_seq(line);
    if is_comment(t) || !starts_with(t, "include "@) {
        None
    } else {
        match after_char(t, '"') {
            None => None,
            Some(rest) => match after_char(rest, '"') {
                None => None,
                Some(_) => Some(before_char(rest, '"')),
            },
        }
    }
}

/// The file a Niri `include` line names, if it is one.
pub fn include_target(line: &str) -> (r: Option<String>)
    ensures
        match r {
            Some(t) => include_target_spec(line@) == Some(t@),
            None => include_target_spec(line@) is None,
        },
{
    let chars = chars_of(line);
    let t = trim_chars(&chars);
    if chars_start_with(&t, "//") || chars_start_with(&t, "/-") || !chars_start_with(&t, "include ") {
        return None;
    }
    assert(t@.skip(0) =~= t@);
    let (_, open) = split_at_char(&t, 0, '"');
    let start = match open {
        Some(k) => k,
        None => {
            return None;
        },
    };
    let (inner, close) = split_at_char(&t, start, '"');
    match close {
        Some(_) => Some(string_from_chars(inner.as_slice())),
        None => None,
    }
}

/// The first token of a non-comment config line, if it has one.
pub open spec fn line_bind(line: Seq<char>) -> Option<Seq<char>> {
    let t = trim_seq(line);
    if is_comment(t) || t.len() == 0 {
        None
    } else {
        Some(t.take(token_len(t) as int))
    }
}

/// A command between double quotes.
pub open spec fn quoted(command: Seq<char>) -> Seq<char> {
    seq!['"'] + command + seq!['"']
}

/// Whether a config line binds one of our commands.
pub open spec fn binds_ours(line: Seq<char>, commands: Seq<&str>) -> bool {
    let t = trim_seq(line);
    contains_seq(t, "niripip"@) && exists|j: int| 0 <= j < commands.len() && contains_seq(t, quoted(#[trigger] commands[j]@))
}

/// Whether a config line binds the same keys as `wanted`.
pub open spec fn binds_keys(line: Seq<char>, wanted: Seq<char>) -> bool {
    line_bind(line) matches Some(tok) && normalized_bind(tok) == wanted
}

fn quoted_chars(command: &str) -> (r: Vec<char>)
    ensures
        r@ == quoted(command@),
{
    let mut v: Vec<char> = Vec::new();
    v.push('"');
    let cs = chars_of(command);
    let mut i: usize = 0;
    while i < cs.len()
        invariant
            i <= cs@.len(),
            cs@ == command@,
            v@ == seq!['"'] + cs@.take(i as int),
        decreases cs@.len() - i,
    {
        v.push(cs[i]);
        i = i + 1;
        assert(v@ =~= seq!['"'] + cs@.take(i as int));
    }
    v.push('"');
    assert(cs@.take(cs@.len() as int) =~= cs@);
    assert(v@ =~= quoted(command@));
    v
}

/// Whether a shortcut is bound to one of our commands (installed) and whether its keys are
/// bound to something else (conflict), in the given config lines.
pub fn shortcut_status(bind: &str, commands: &[&str], lines: &[String]) -> (r: (bool, bool))
    ensures
        r.0 == exists|i: int| 0 <= i < lines@.len() && binds_keys(#[trigger] lines@[i]@, normalized_bind(bind@))
            && binds_ours(lines@[i]@, commands@),
        r.1 == exists|i: int| 0 <= i < lines@.len() && binds_keys(#[trigger] lines@[i]@, normalized_bind(bind@))
            && !binds_ours(lines@[i]@, commands@),
{
    let wanted = normalize_shortcut_bind(bind);
    let ghost w = normalized_bind(bind@);
    let mut installed = false;
    let mut conflict = false;
    let niripip = chars_of("niripip");
    let mut i: usize = 0;
    while i < lines.len()
        invariant
            i <= lines@.len(),
            wanted@ == w,
            niripip@ == "niripip"@,
            installed == exists|k: int| 0 <= k < i && binds_keys(#[trigger] lines@[k]@, w) && binds_ours(lines@[k]@, commands@),
            conflict == exists|k: int| 0 <= k < i && binds_keys(#[trigger] lines@[k]@, w) && !binds_ours(lines@[k]@, commands@),
        decreases lines@.len() - i,
    {
        let raw = chars_of(lines[i].as_str());
        let t = trim_chars(&raw);
        let ghost here = lines@[i as int]@;
        if chars_start_with(&t, "//") || chars_start_with(&t, "/-") || t.len() == 0 {
            proof {
                assert(!binds_keys(here, w));
            }
            i = i + 1;
            continue;
        }
        assert(t@.skip(0) =~= t@);
        let n = count_token(&t, 0);
        let mut tok: Vec<char> = Vec::new();
        let mut j: usize = 0;
        while j < n
            invariant
                j <= n <= t@.len(),
                tok@ == t@.take(j as int),
            decreases n - j,
        {
            tok.push(t[j]);
            j = j + 1;
            assert(tok@ =~= t@.take(j as int));
        }
        let tok_s = string_from_chars(tok.as_slice());
        let norm = normalize_shortcut_bind(tok_s.as_str());
        if !str_eq(norm.as_str(), wanted.as_str()) {
            proof {
                assert(!binds_keys(here, w));
            }
            i = i + 1;
            continue;
        }
        let mut ours = chars_contain(&t, &niripip);
        if ours {
            let mut found = false;
            let mut c: usize = 0;
            while c < commands.len()
                invariant
                    c <= commands@.len(),
                    found == exists|x: int| 0 <= x < c && contains_seq(t@, quoted(#[trigger] commands@[x]@)),
                decreases commands@.len() - c,
            {
                let q = quoted_chars(commands[c]);
                if chars_contain(&t, &q) {
                    found = true;
                }
                c = c + 1;
            }
            ours = found;
        }
        proof {
            assert(binds_keys(here, w));
            assert(ours == binds_ours(here, commands@));
        }
        if ours {
            installed = true;
        } else {
            conflict = true;
        }
        i = i + 1;
    }
    (installed, conflict)
}

/// The title of the settings window.
pub const SETTINGS_TITLE: &'static str = "niri-pip \u{2014} Settings";

/// A window as `niri msg --json windows` lists it.
#[derive(Debug, Clone)]
pub struct NiriUiWindow {
    pub id: u64,
    pub title: String,
    pub is_focused: bool,
}

/// The first window titled as the settings window (and focused, when `focused` is asked).
pub open spec fn first_settings(ws: Seq<NiriUiWindow>, focused: bool) -> Option<u64>
    decreases ws.len(),
{
    if ws.len() == 0 {
        None
    } else if ws[0].title@ == SETTINGS_TITLE@ && (!focused || ws[0].is_focused) {
        Some(ws[0].id)
    } else {
        first_settings(ws.drop_first(), focused)
    }
}

fn find_settings(windows: &[NiriUiWindow], focused: bool) -> (r: Option<u64>)
    ensures
        r == first_settings(windows@, focused),
{
    let mut i: usize = 0;
    assert(windows@.skip(0) =~= windows@);
    while i < windows.len()
        invariant
            i <= windows@.len(),
            first_settings(windows@, focused) == first_settings(windows@.skip(i as int), focused),
        decreases windows@.len() - i,
    {
        let w = &windows[i];
        assert(windows@.skip(i as int)[0] == windows@[i as int]);
        if str_eq(w.title.as_str(), SETTINGS_TITLE) && (!focused || w.is_focused) {
            return Some(w.id);
        }
        assert(windows@.skip(i as int).drop_first() =~= windows@.skip(i + 1));
        i = i + 1;
    }
    None
}

/// The settings window: the focused one with its title, else the first with its title.
pub fn settings_window_id(windows: &[NiriUiWindow]) -> (r: Option<u64>)
    ensures
        r == (match first_settings(windows@, true) {
            Some(id) => Some(id),
            None => first_settings(windows@, false),
        }),
{
    match find_settings(windows, true) {
        Some(id) => Some(id),
        None => find_settings(windows, false),
    }
}

/// A recommended keyboard shortcut and how the Niri config binds it.
#[derive(Debug, Clone)]
pub struct Shortcut {
    pub name: String,
    pub command: String,
    pub suggested_bind: String,
    pub installed: bool,
    pub conflict: bool,
}

/// A shortcut with its status in the given config lines.
pub open spec fn shortcut_shows(s: Shortcut, name: Seq<char>, command: Seq<char>, bind: Seq<char>, accepted: Seq<&str>, lines: Seq<String>) -> bool {
    &&& s.name@ == name
    &&& s.command@ == command
    &&& s.suggested_bind@ == bind
    &&& s.installed == exists|i: int| 0 <= i < lines.len() && binds_keys(#[trigger] lines[i]@, normalized_bind(bind))
        && binds_ours(lines[i]@, accepted)
    &&& s.conflict == exists|i: int| 0 <= i < lines.len() && binds_keys(#[trigger] lines[i]@, normalized_bind(bind))
        && !binds_ours(lines[i]@, accepted)
}

fn make_shortcut(name: &str, command: &str, bind: &str, accepted: &[&str], lines: &[String]) -> (r: Shortcut)
    ensures
        shortcut_shows(r, name@, command@, bind@, accepted@, lines@),
{
    let (installed, conflict) = shortcut_status(bind, accepted, lines);
    Shortcut { name: name.to_owned(), command: command.to_owned(), suggested_bind: bind.to_owned(), installed, conflict }
}

/// The recommended shortcuts, with their status in the active Niri config lines.
pub fn recommended_shortcuts(lines: &[String]) -> (r: Vec<Shortcut>)
    ensures
        r@.len() == 6,
        shortcut_shows(r@[0], "settings"@, "niripip ui"@, "Mod+Alt+P"@, seq!["ui"], lines@),
        shortcut_shows(r@[1], "hide"@, "niripip hide"@, "Mod+Alt+M"@, seq!["hide", "minimize"], lines@),
        shortcut_shows(r@[2], "restore-hidden"@, "niripip restore-hidden"@, "Mod+Alt+Shift+M"@,
            seq!["restore-hidden", "restore-minimized"], lines@),
        shortcut_shows(r@[3], "toggle"@, "niripip toggle"@, "Mod+Alt+T"@, seq!["toggle"], lines@),
        shortcut_shows(r@[4], "peek"@, "niripip peek"@, "Mod+Alt+Space"@, seq!["peek"], lines@),
        shortcut_shows(r@[5], "restore"@, "niripip unpin"@, "Mod+Alt+U"@, seq!["unpin"], lines@),
{
    let mut out: Vec<Shortcut> = Vec::new();
    let a0: [&str; 1] = ["ui"];
    assert(a0@ =~= seq!["ui"]);
    out.push(make_shortcut("settings", "niripip ui", "Mod+Alt+P", &a0, lines));
    let a1: [&str; 2] = ["hide", "minimize"];
    assert(a1@ =~= seq!["hide", "minimize"]);
    out.push(make_shortcut("hide", "niripip hide", "Mod+Alt+M", &a1, lines));
    let a2: [&str; 2] = ["restore-hidden", "restore-minimized"];
    assert(a2@ =~= seq!["restore-hidden", "restore-minimized"]);
    out.push(make_shortcut("restore-hidden", "niripip restore-hidden", "Mod+Alt+Shift+M", &a2, lines));
    let a3: [&str; 1] = ["toggle"];
    assert(a3@ =~= seq!["toggle"]);
    out.push(make_shortcut("toggle", "niripip toggle", "Mod+Alt+T", &a3, lines));
    let a4: [&str; 1] = ["peek"];
    assert(a4@ =~= seq!["peek"]);
    out.push(make_shortcut("peek", "niripip peek", "Mod+Alt+Space", &a4, lines));
    let a5: [&str; 1] = ["unpin"];
    assert(a5@ =~= seq!["unpin"]);
    out.push(make_shortcut("restore", "niripip unpin", "Mod+Alt+U", &a5, lines));
    out
}

/// The config name of a follow mode.
pub open spec fn follow_mode_text(mode: FollowMode) -> Seq<char> {
    match mode {
        FollowMode::FollowWorkspace => "follow-workspace"@,
        FollowMode::FollowFocusedOutput => "follow-focused-output"@,
        FollowMode::StayOnOutput => "stay-on-output"@,
    }
}

/// The name the settings page gives a follow mode.
pub fn follow_mode_name(mode: FollowMode) -> (r: &'static str)
    ensures
        r@ == follow_mode_text(mode),
{
    match mode {
        FollowMode::FollowWorkspace => "follow-workspace",
        FollowMode::FollowFocusedOutput => "follow-focused-output",
        FollowMode::StayOnOutput => "stay-on-output",
    }
}

/// A language choice as given, trimmed and in ASCII lower case, when it is `auto`, `ru` or `en`.
pub open spec fn language_spec(text: Seq<char>) -> Option<Seq<char>> {
    let v = lower_seq(trim_seq(text));
    if v == "auto"@ || v == "ru"@ || v == "en"@ {
        Some(v)
    } else {
        None
    }
}

/// The language a stored choice names, if it names a supported one.
pub fn language_choice(text: &str) -> (r: Option<String>)
    ensures
        match r {
            Some(l) => language_spec(text@) == Some(l@),
            None => language_spec(text@) is None,
        },
{
    let chars = chars_of(text);
    let v = lower_chars(&trim_chars(&chars));
    if chars_eq_str(&v, "auto") || chars_eq_str(&v, "ru") || chars_eq_str(&v, "en") {
        Some(string_from_chars(v.as_slice()))
    } else {
        None
    }
}

/// The settings the settings application shows and writes.
#[derive(Debug, Clone, Copy, PartialEq, Eq, Structural)]
pub struct UiSettings {
    pub auto_detect: bool,
    pub remember_geometry: bool,
    pub follow_workspace: bool,
    pub follow_mode: FollowMode,
    pub restore_layout_on_unpin: bool,
    pub prevent_focus_stealing: bool,
    pub preserve_aspect_ratio: bool,
    pub minimize_enabled: bool,
    pub minimize_restore_focus: bool,
    pub opacity_percent: u8,
}

/// The settings shown for a configuration and the daemon's opacity override (full opacity
/// when there is none). The minimize settings are not part of the configuration model and
/// show their defaults.
pub fn settings_from_config(config: &Config, opacity_override: Option<u8>) -> (r: UiSettings)
    ensures
        r.auto_detect == config.general.auto_detect,
        r.remember_geometry == config.general.remember_geometry,
        r.follow_workspace == config.general.follow_workspace,
        r.follow_mode == config.general.follow_mode,
        r.restore_layout_on_unpin == config.general.restore_layout_on_unpin,
        r.prevent_focus_stealing == !config.pip.steal_focus,
        r.preserve_aspect_ratio == config.pip.preserve_aspect_ratio,
        r.minimize_enabled && r.minimize_restore_focus,
        r.opacity_percent == (match opacity_override { Some(p) => p, None => 100u8 }),
{
    UiSettings {
        auto_detect: config.general.auto_detect,
        remember_geometry: config.general.remember_geometry,
        follow_workspace: config.general.follow_workspace,
        follow_mode: config.general.follow_mode,
        restore_layout_on_unpin: config.general.restore_layout_on_unpin,
        prevent_focus_stealing: !config.pip.steal_focus,
        preserve_aspect_ratio: config.pip.preserve_aspect_ratio,
        minimize_enabled: true,
        minimize_restore_focus: true,
        opacity_percent: match opacity_override {
            Some(p) => p,
            None => 100,
        },
    }
}

/// A value written into the configuration file.
#[derive(Debug, Clone)]
pub enum SettingValue {
    Flag(bool),
    Text(String),
}

/// One key of one table of the configuration file, and the value written there.
#[derive(Debug, Clone)]
pub struct SettingAssignment {
    pub table: String,
    pub key: String,
    pub value: SettingValue,
}

/// Whether an assignment writes `value` under `table.key`.
pub open spec fn assigns(a: SettingAssignment, table: Seq<char>, key: Seq<char>, value: SettingValue) -> bool {
    &&& a.table@ == table
    &&& a.key@ == key
    &&& match (a.value, value) {
        (SettingValue::Flag(x), SettingValue::Flag(y)) => x == y,
        (SettingValue::Text(x), SettingValue::Text(y)) => x@ == y@,
        _ => false,
    }
}

fn assignment(table: &str, key: &str, value: SettingValue) -> (r: SettingAssignment)
    ensures
        r.table@ == table@,
        r.key@ == key@,
        r.value == value,
{
    SettingAssignment { table: table.to_owned(), key: key.to_owned(), value }
}

/// The settings are written only with an opacity from 10 to 100 percent.
pub fn settings_opacity_ok(settings: &UiSettings) -> (r: bool)
    ensures
        r == (10 <= settings.opacity_percent <= 100),
{
    10 <= settings.opacity_percent && settings.opacity_percent <= 100
}

/// What writing the settings puts into the configuration file, in order; everything else in
/// the file is kept.
pub fn settings_assignments(settings: &UiSettings) -> (r: Vec<SettingAssignment>)
    ensures
        r@.map_values(|a: SettingAssignment| assignment_view(a)) == settings_plan(*settings),
        r@.len() == 9,
        assigns(r@[0], "general"@, "auto_detect"@, SettingValue::Flag(settings.auto_detect)),
        assigns(r@[1], "general"@, "remember_geometry"@, SettingValue::Flag(settings.remember_geometry)),
        assigns(r@[2], "general"@, "follow_workspace"@, SettingValue::Flag(settings.follow_workspace)),
        r@[3].table@ == "general"@ && r@[3].key@ == "follow_mode"@,
        r@[3].value matches SettingValue::Text(t) && t@ == follow_mode_text(settings.follow_mode),
        assigns(r@[4], "general"@, "restore_layout_on_unpin"@, SettingValue::Flag(settings.restore_layout_on_unpin)),
        assigns(r@[5], "pip"@, "steal_focus"@, SettingValue::Flag(!settings.prevent_focus_stealing)),
        assigns(r@[6], "pip"@, "preserve_aspect_ratio"@, SettingValue::Flag(settings.preserve_aspect_ratio)),
        assigns(r@[7], "minimize"@, "enabled"@, SettingValue::Flag(settings.minimize_enabled)),
        assigns(r@[8], "minimize"@, "restore_focus"@, SettingValue::Flag(settings.minimize_restore_focus)),
{
    let mut v: Vec<SettingAssignment> = Vec::new();
    v.push(assignment("general", "auto_detect", SettingValue::Flag(settings.auto_detect)));
    v.push(assignment("general", "remember_geometry", SettingValue::Flag(settings.remember_geometry)));
    v.push(assignment("general", "follow_workspace", SettingValue::Flag(settings.follow_workspace)));
    v.push(assignment("general", "follow_mode", SettingValue::Text(follow_mode_name(settings.follow_mode).to_owned())));
    v.push(assignment("general", "restore_layout_on_unpin", SettingValue::Flag(settings.restore_layout_on_unpin)));
    v.push(assignment("pip", "steal_focus", SettingValue::Flag(!settings.prevent_focus_stealing)));
    v.push(assignment("pip", "preserve_aspect_ratio", SettingValue::Flag(settings.preserve_aspect_ratio)));
    v.push(assignment("minimize", "enabled", SettingValue::Flag(settings.minimize_enabled)));
    v.push(assignment("minimize", "restore_focus", SettingValue::Flag(settings.minimize_restore_focus)));
    assert(v@.map_values(|a: SettingAssignment| assignment_view(a)) =~= settings_plan(*settings));
    v
}

/// An assignment as plain values: table, key, and the value as a flag or, where it is no
/// flag, as text.
pub open spec fn assignment_view(a: SettingAssignment) -> (Seq<char>, Seq<char>, Option<bool>, Seq<char>) {
    match a.value {
        SettingValue::Flag(b) => (a.table@, a.key@, Some(b), Seq::empty()),
        SettingValue::Text(t) => (a.table@, a.key@, None, t@),
    }
}

/// What writing `s` puts into the configuration file, in order, as `assignment_view` gives it.
pub open spec fn settings_plan(s: UiSettings) -> Seq<(Seq<char>, Seq<char>, Option<bool>, Seq<char>)> {
    seq![
        ("general"@, "auto_detect"@, Some(s.auto_detect), Seq::empty()),
        ("general"@, "remember_geometry"@, Some(s.remember_geometry), Seq::empty()),
        ("general"@, "follow_workspace"@, Some(s.follow_workspace), Seq::empty()),
        ("general"@, "follow_mode"@, None, follow_mode_text(s.follow_mode)),
        ("general"@, "restore_layout_on_unpin"@, Some(s.restore_layout_on_unpin), Seq::empty()),
        ("pip"@, "steal_focus"@, Some(!s.prevent_focus_stealing), Seq::empty()),
        ("pip"@, "preserve_aspect_ratio"@, Some(s.preserve_aspect_ratio), Seq::empty()),
        ("minimize"@, "enabled"@, Some(s.minimize_enabled), Seq::empty()),
        ("minimize"@, "restore_focus"@, Some(s.minimize_restore_focus), Seq::empty()),
    ]
}

/// Whether a TOML text lacks a top-level entry named `table`, as `toml_edit` reads it; `None`
/// where the text does not parse.
pub uninterp spec fn toml_lacks_table(text: Seq<char>, table: Seq<char>) -> Option<bool>;

/// The TOML text with an empty table `table` added at the top level, as `toml_edit` writes it;
/// `None` where the text does not parse.
pub uninterp spec fn toml_table_inserted(text: Seq<char>, table: Seq<char>) -> Option<Seq<char>>;

/// The TOML text with `table.key` set to a flag, as `toml_edit` writes it; `None` where the
/// text does not parse or `table` is no table.
pub uninterp spec fn toml_flag_assigned(text: Seq<char>, table: Seq<char>, key: Seq<char>, flag: bool) -> Option<Seq<char>>;

/// The TOML text with `table.key` set to a string, as `toml_edit` writes it; `None` where the
/// text does not parse or `table` is no table.
pub uninterp spec fn toml_text_assigned(text: Seq<char>, table: Seq<char>, key: Seq<char>, value: Seq<char>) -> Option<Seq<char>>;

/// Parses `text` with `toml_edit::DocumentMut`'s `FromStr` and asks its root table for
/// `table` (`Table::get`). Claims only that the answer is `toml_lacks_table` of the arguments.
#[verifier::external_body]
fn toml_lacks_table_in(text: &str, table: &str) -> (r: Option<bool>)
    ensures
        r == toml_lacks_table(text@, table@),
{
    match text.parse::<toml_edit::DocumentMut>() {
        Ok(doc) => Some(doc.as_table().get(table).is_none()),
        Err(_) => None,
    }
}

/// Parses `text` into a `toml_edit::DocumentMut`, inserts an empty `toml_edit::Table` under
/// `table` (`Table::insert`) and writes the document out (`Display`). Claims only that the
/// result is `toml_table_inserted` of the arguments.
#[verifier::external_body]
fn toml_insert_table(text: &str, table: &str) -> (r: Option<String>)
    ensures
        r is Some <==> toml_table_inserted(text@, table@) is Some,
        r matches Some(t) ==> t@ == toml_table_inserted(text@, table@)->0,
{
    let mut doc = match text.parse::<toml_edit::DocumentMut>() {
        Ok(d) => d,
        Err(_) => return None,
    };
    doc.as_table_mut().insert(table, toml_edit::Item::Table(toml_edit::Table::new()));
    Some(doc.to_string())
}

/// Parses `text` into a `toml_edit::DocumentMut`, reaches `table.key` with `Table::get_mut`
/// and `Item::get_mut` (which adds the key to a table), puts the flag there (`toml_edit::value`)
/// and writes the document out. Claims only that the result is `toml_flag_assigned` of the
/// arguments.
#[verifier::external_body]
fn toml_assign_flag(text: &str, table: &str, key: &str, flag: bool) -> (r: Option<String>)
    ensures
        r is Some <==> toml_flag_assigned(text@, table@, key@, flag) is Some,
        r matches Some(t) ==> t@ == toml_flag_assigned(text@, table@, key@, flag)->0,
{
    let mut doc = match text.parse::<toml_edit::DocumentMut>() {
        Ok(d) => d,
        Err(_) => return None,
    };
    match doc.get_mut(table) {
        Some(item) => match item.get_mut(key) {
            Some(slot) => *slot = toml_edit::value(flag),
            None => return None,
        },
        None => return None,
    }
    Some(doc.to_string())
}

/// As `toml_assign_flag`, with a string value. Claims only that the result is
/// `toml_text_assigned` of the arguments.
#[verifier::external_body]
fn toml_assign_text(text: &str, table: &str, key: &str, value: &str) -> (r: Option<String>)
    ensures
        r is Some <==> toml_text_assigned(text@, table@, key@, value@) is Some,
        r matches Some(t) ==> t@ == toml_text_assigned(text@, table@, key@, value@)->0,
{
    let mut doc = match text.parse::<toml_edit::DocumentMut>() {
        Ok(d) => d,
        Err(_) => return None,
    };
    match doc.get_mut(table) {
        Some(item) => match item.get_mut(key) {
            Some(slot) => *slot = toml_edit::value(value),
            None => return None,
        },
        None => return None,
    }
    Some(doc.to_string())
}

/// One assignment written into a TOML text: its table is added where the text lacks it, then
/// the key is set; `None` where the text does not parse or the table is no table.
pub open spec fn toml_assignment_applied(text: Seq<char>, a: (Seq<char>, Seq<char>, Option<bool>, Seq<char>)) -> Option<Seq<char>> {
    match toml_lacks_table(text, a.0) {
        None => None,
        Some(lacks) => {
            let base = if lacks { toml_table_inserted(text, a.0) } else { Some(text) };
            match base {
                None => None,
                Some(t) => match a.2 {
                    Some(b) => toml_flag_assigned(t, a.0, a.1, b),
                    None => toml_text_assigned(t, a.0, a.1, a.3),
                },
            }
        },
    }
}

/// Assignments written into a TOML text one after the other.
pub open spec fn toml_assignments_applied(text: Seq<char>, s: Seq<(Seq<char>, Seq<char>, Option<bool>, Seq<char>)>) -> Option<Seq<char>>
    decreases s.len(),
{
    if s.len() == 0 {
        Some(text)
    } else {
        match toml_assignments_applied(text, s.drop_last()) {
            None => None,
            Some(t) => toml_assignment_applied(t, s.last()),
        }
    }
}

/// The text that settings are written into: the file's text, or nothing where it is blank.
pub open spec fn settings_base(current: Seq<char>) -> Seq<char> {
    if trim_seq(current).len() == 0 {
        Seq::empty()
    } else {
        current
    }
}

/// Why the settings could not be written into the configuration file.
#[derive(Debug, Clone, Copy, PartialEq, Eq, Structural)]
pub enum SettingsFileError {
    /// The file is not TOML, or a settings section in it is no table.
    Unusable,
}

impl SettingsFileError {
    /// The text that reports the error.
    pub fn message(&self) -> (r: String)
        ensures
            r@ == "parsing config.toml for settings update"@,
    {
        "parsing config.toml for settings update".to_owned()
    }
}

proof fn lemma_applied_stays_none(text: Seq<char>, s: Seq<(Seq<char>, Seq<char>, Option<bool>, Seq<char>)>, k: int, j: int)
    requires
        0 <= k <= j <= s.len(),
        toml_assignments_applied(text, s.take(k)) is None,
    ensures
        toml_assignments_applied(text, s.take(j)) is None,
    decreases j - k,
{
    if j > k {
        lemma_applied_stays_none(text, s, k, j - 1);
        assert(s.take(j).drop_last() =~= s.take(j - 1));
    }
}

/// The configuration text with the settings written into it: `current` (or an empty
/// document, where it is blank) with each assignment of `settings_plan` applied in turn.
/// Everything else in the text is left to `toml_edit`, which keeps it as it stands.
pub fn settings_config_text(current: &str, settings: &UiSettings) -> (r: Result<String, SettingsFileError>)
    ensures
        match toml_assignments_applied(settings_base(current@), settings_plan(*settings)) {
            Some(t) => r matches Ok(x) && x@ == t,
            None => r == Err::<String, SettingsFileError>(SettingsFileError::Unusable),
        },
{
    let plan = settings_assignments(settings);
    let ghost views = settings_plan(*settings);
    let ghost base = settings_base(current@);
    let chars = chars_of(current);
    let trimmed = trim_chars(&chars);
    let mut text: String = if trimmed.len() == 0 { String::new() } else { current.to_owned() };
    assert(views.take(0) =~= Seq::<(Seq<char>, Seq<char>, Option<bool>, Seq<char>)>::empty());
    let mut i: usize = 0;
    while i < plan.len()
        invariant
            plan@.map_values(|a: SettingAssignment| assignment_view(a)) == views,
            views == settings_plan(*settings),
            base == settings_base(current@),
            views.len() == plan@.len(),
            i <= plan@.len(),
            toml_assignments_applied(base, views.take(i as int)) == Some(text@),
        decreases plan@.len() - i,
    {
        let a = &plan[i];
        let ghost av = views[i as int];
        assert(av == assignment_view(*a));
        assert(av.0 == a.table@ && av.1 == a.key@) by {
            match a.value {
                SettingValue::Flag(_) => {},
                SettingValue::Text(_) => {},
            }
        }
        assert(views.take(i + 1).drop_last() =~= views.take(i as int));
        assert(views.take(i + 1).last() == av);
        let lacks = match toml_lacks_table_in(text.as_str(), a.table.as_str()) {
            Some(l) => l,
            None => {
                proof {
                    assert(toml_assignments_applied(base, views.take(i + 1)) is None);
                    lemma_applied_stays_none(base, views, i + 1, views.len() as int);
                    assert(views.take(views.len() as int) =~= views);
                }
                return Err(SettingsFileError::Unusable);
            },
        };
        let based = if lacks {
            toml_insert_table(text.as_str(), a.table.as_str())
        } else {
            Some(text.clone())
        };
        let t = match based {
            Some(t) => t,
            None => {
                proof {
                    lemma_applied_stays_none(base, views, i + 1, views.len() as int);
                    assert(views.take(views.len() as int) =~= views);
                }
                return Err(SettingsFileError::Unusable);
            },
        };
        let next = match &a.value {
            SettingValue::Flag(b) => toml_assign_flag(t.as_str(), a.table.as_str(), a.key.as_str(), *b),
            SettingValue::Text(v) => toml_assign_text(t.as_str(), a.table.as_str(), a.key.as_str(), v.as_str()),
        };
        match next {
            Some(n) => {
                text = n;
            },
            None => {
                proof {
                    lemma_applied_stays_none(base, views, i + 1, views.len() as int);
                    assert(views.take(views.len() as int) =~= views);
                }
                return Err(SettingsFileError::Unusable);
            },
        }
        i = i + 1;
    }
    assert(views.take(views.len() as int) =~= views);
    Ok(text)
}

} // verus!
