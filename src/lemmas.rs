//! Facts about the store file's format and about the edits of the store,
//! stated over the models that the functions' contracts use.
use vstd::prelude::*;
use crate::store::{
    appended_text, ends_open, split_text, text_pieces, data_lines, delete_outcome, entry_line, first_match, is_data_line, lemma_first_match_is_first,
    parse_line_spec, parse_store, update_outcome, valid_entry,
};
use crate::text::{
    has_prefix, is_white_space, split_at_eq, trim_end_spec, trim_start_spec, trimmed,
};

verus! {

/// A name that reads back as itself from its line: not empty, not the start
/// of a comment, without `=`, and without white space at its ends.
pub open spec fn plain_name(name: Seq<char>) -> bool {
    name.len() > 0 && name[0] != '#' && !name.contains('=') && trimmed(name) == name
}

/// A secret that reads back as itself from its line: without white space at
/// its ends.
pub open spec fn plain_secret(secret: Seq<char>) -> bool {
    trimmed(secret) == secret
}

/// The lines `name = secret` of a list of entries.
pub open spec fn entry_lines(e: Seq<(Seq<char>, Seq<char>)>) -> Seq<Seq<char>> {
    Seq::new(e.len(), |i: int| entry_line(e[i].0, e[i].1))
}

proof fn lemma_split_first_eq(a: Seq<char>, b: Seq<char>)
    requires
        !a.contains('='),
    ensures
        split_at_eq(a + seq!['='] + b) == Some((a, b)),
    decreases a.len(),
{
    let s = a + seq!['='] + b;
    if a.len() == 0 {
        assert(s.drop_first() =~= b);
    } else {
        assert(a[0] != '=');
        let t = a.drop_first();
        assert(!t.contains('=')) by {
            if t.contains('=') {
                let k = choose|k: int| 0 <= k < t.len() && t[k] == '=';
                assert(a[k + 1] == '=');
            }
        }
        lemma_split_first_eq(t, b);
        assert(s.drop_first() =~= t + seq!['='] + b);
        assert(seq![s[0]] + t =~= a);
    }
}

proof fn lemma_trim_lengths(s: Seq<char>)
    ensures
        trim_start_spec(s).len() <= s.len(),
        trim_end_spec(s).len() <= s.len(),
        s.len() > 0 && is_white_space(s[0]) ==> trim_start_spec(s).len() < s.len(),
        s.len() > 0 && is_white_space(s.last()) ==> trim_end_spec(s).len() < s.len(),
    decreases s.len(),
{
    if s.len() > 0 {
        lemma_trim_lengths(s.drop_first());
        lemma_trim_lengths(s.drop_last());
    }
}

/// A text that equals its trimmed form and is not empty has no white space
/// at either end.
proof fn lemma_trimmed_ends(s: Seq<char>)
    requires
        trimmed(s) == s,
        s.len() > 0,
    ensures
        !is_white_space(s[0]),
        !is_white_space(s.last()),
{
    lemma_trim_lengths(s);
    lemma_trim_lengths(trim_start_spec(s));
    if trim_start_spec(s).len() == s.len() {
        assert(trim_start_spec(s) == s);
    }
}

/// A plain entry's line reads back as that entry.
proof fn lemma_entry_line_parses(name: Seq<char>, secret: Seq<char>)
    requires
        plain_name(name),
        plain_secret(secret),
    ensures
        parse_line_spec(entry_line(name, secret)) == Some((name, secret)),
{
    let l = entry_line(name, secret);
    let a = name.push(' ');
    let b = seq![' '] + secret;
    assert(l =~= a + seq!['='] + b);
    assert(!a.contains('=')) by {
        if a.contains('=') {
            let k = choose|k: int| 0 <= k < a.len() && a[k] == '=';
            assert(k < name.len());
            assert(name[k] == '=');
        }
    }
    lemma_split_first_eq(a, b);
    lemma_trimmed_ends(name);
    assert(is_data_line(l)) by {
        assert(l[0] == name[0]);
    }
    assert(trim_start_spec(a) == a);
    assert(a.drop_last() =~= name);
    assert(trim_end_spec(name) == name);
    assert(trimmed(a) == name);
    assert(b.drop_first() =~= secret);
    assert(trim_start_spec(b) == trim_start_spec(secret));
    if secret.len() > 0 {
        lemma_trimmed_ends(secret);
        assert(trim_start_spec(secret) == secret);
    } else {
        assert(trim_start_spec(secret) == secret);
    }
    assert(trimmed(b) == secret);
}

/// The value under `k` comes from the last line that gives `k`.
proof fn lemma_last_line_counts(lines: Seq<Seq<char>>, i: int, k: Seq<char>, v: Seq<char>)
    requires
        0 <= i < lines.len(),
        parse_line_spec(lines[i]) == Some((k, v)),
        forall|j: int|
            i < j < lines.len() ==> !(#[trigger] parse_line_spec(lines[j]) matches Some((
                n,
                _,
            )) && n == k),
    ensures
        parse_store(lines).contains_key(k),
        parse_store(lines)[k] == v,
    decreases lines.len(),
{
    if i < lines.len() - 1 {
        let p = lines.drop_last();
        assert forall|j: int| i < j < p.len() implies !(#[trigger] parse_line_spec(p[j]) matches Some((
            n,
            _,
        )) && n == k) by {
            assert(p[j] == lines[j]);
        }
        lemma_last_line_counts(p, i, k, v);
        assert(!(parse_line_spec(lines[lines.len() - 1]) matches Some((n, _)) && n == k));
    }
}

/// A file of data lines only keeps all of them.
proof fn lemma_data_lines_all(lines: Seq<Seq<char>>)
    requires
        forall|j: int| 0 <= j < lines.len() ==> is_data_line(#[trigger] lines[j]),
    ensures
        data_lines(lines) == lines,
    decreases lines.len(),
{
    if lines.len() > 0 {
        let p = lines.drop_last();
        assert forall|j: int| 0 <= j < p.len() implies is_data_line(#[trigger] p[j]) by {
            assert(p[j] == lines[j]);
        }
        lemma_data_lines_all(p);
        assert(p.push(lines.last()) =~= lines);
    }
}

/// Lines that hold no data give no entry.
proof fn lemma_no_data_no_entries(lines: Seq<Seq<char>>)
    requires
        forall|j: int| 0 <= j < lines.len() ==> !is_data_line(#[trigger] lines[j]),
    ensures
        parse_store(lines) == Map::<Seq<char>, Seq<char>>::empty(),
    decreases lines.len(),
{
    if lines.len() > 0 {
        let p = lines.drop_last();
        assert forall|j: int| 0 <= j < p.len() implies !is_data_line(#[trigger] p[j]) by {
            assert(p[j] == lines[j]);
        }
        lemma_no_data_no_entries(p);
        assert(!is_data_line(lines[lines.len() - 1]));
    }
}

proof fn lemma_pieces_nonempty(t: Seq<char>)
    ensures
        text_pieces(t).len() >= 1,
    decreases t.len(),
{
    if t.len() > 0 {
        lemma_pieces_nonempty(t.drop_last());
    }
}

/// Text without `\n` extends the last piece.
proof fn lemma_pieces_extend(t: Seq<char>, s: Seq<char>)
    requires
        !s.contains('\n'),
    ensures
        text_pieces(t + s) == text_pieces(t).update(
            text_pieces(t).len() - 1,
            text_pieces(t).last() + s,
        ),
    decreases s.len(),
{
    lemma_pieces_nonempty(t);
    let p = text_pieces(t);
    if s.len() == 0 {
        assert(t + s =~= t);
        assert(p.last() + s =~= p.last());
        assert(p.update(p.len() - 1, p.last()) =~= p);
    } else {
        let s0 = s.drop_last();
        assert(!s0.contains('\n')) by {
            if s0.contains('\n') {
                let k = choose|k: int| 0 <= k < s0.len() && s0[k] == '\n';
                assert(s[k] == '\n');
            }
        }
        assert(s.last() != '\n') by {
            if s.last() == '\n' {
                assert(s[s.len() - 1] == '\n');
            }
        }
        lemma_pieces_extend(t, s0);
        assert((t + s).drop_last() =~= t + s0);
        assert((t + s).last() == s.last());
        let q = text_pieces(t + s0);
        assert(q.len() == p.len());
        assert(q.last() == p.last() + s0);
        assert((p.last() + s0).push(s.last()) =~= p.last() + s);
        assert(text_pieces(t + s) =~= p.update(p.len() - 1, p.last() + s));
    }
}

/// Appending a line's text, after a `\n` where the text ends open, adds just
/// that line to the text's lines.
proof fn lemma_split_append_line(t: Seq<char>, e: Seq<char>)
    requires
        !e.contains('\n'),
    ensures
        split_text(
            t + (if ends_open(t) {
                seq!['\n']
            } else {
                Seq::<char>::empty()
            }) + e + seq!['\n'],
        ) == split_text(t).push(e),
{
    lemma_pieces_nonempty(t);
    let p = text_pieces(t);
    let pre = if ends_open(t) {
        seq!['\n']
    } else {
        Seq::<char>::empty()
    };
    let u = t + pre;
    let all = u + e + seq!['\n'];
    assert(all.drop_last() =~= u + e);
    assert(!ends_open(all));
    if ends_open(t) {
        assert(u.drop_last() =~= t);
        assert(text_pieces(u) == p.push(Seq::empty()));
        lemma_pieces_extend(u, e);
        assert(Seq::<char>::empty() + e =~= e);
        assert(text_pieces(u + e) =~= p.push(e));
        assert(split_text(all) =~= split_text(t).push(e));
    } else {
        assert(u =~= t);
        assert(p.last() =~= Seq::<char>::empty()) by {
            if t.len() > 0 {
                assert(t.last() == '\n');
            }
        }
        lemma_pieces_extend(t, e);
        assert(p.last() + e =~= e);
        assert(split_text(all) =~= split_text(t).push(e));
    }
}

/// After a valid entry whose name the store does not hold is appended to the
/// store file's text, as `insert_into_store` gives it, the lines of the text
/// gain just the entry's line, and the store read again maps the name to the
/// secret.
pub proof fn lemma_insert_then_reopen(text: Seq<char>, name: Seq<char>, secret: Seq<char>)
    requires
        valid_entry(name, secret),
        !parse_store(split_text(text)).contains_key(name),
        plain_name(name),
        plain_secret(secret),
        !name.contains('\n'),
        !secret.contains('\n'),
    ensures
        split_text(text + appended_text(text, name, secret)) == split_text(text).push(
            entry_line(name, secret),
        ),
        parse_store(split_text(text + appended_text(text, name, secret))).contains_key(name),
        parse_store(split_text(text + appended_text(text, name, secret)))[name] == secret,
        parse_store(split_text(text + appended_text(text, name, secret))) == parse_store(
            split_text(text),
        ).insert(name, secret),
{
    let e = entry_line(name, secret);
    assert(!e.contains('\n')) by {
        if e.contains('\n') {
            let k = choose|k: int| 0 <= k < e.len() && e[k] == '\n';
            if k < name.len() {
                assert(name[k] == '\n');
            } else if k >= name.len() + 3 {
                assert(secret[k - name.len() - 3] == '\n');
            }
        }
    }
    let pre = if ends_open(text) {
        seq!['\n']
    } else {
        Seq::<char>::empty()
    };
    assert(text + appended_text(text, name, secret) =~= text + pre + e + seq!['\n']);
    lemma_split_append_line(text, e);
    lemma_entry_line_parses(name, secret);
    let lines = split_text(text);
    assert(lines.push(e).drop_last() =~= lines);
}

/// Deleting a name that the first matching line starts with removes exactly
/// that line: one line fewer, and a line that stood once is gone.
pub proof fn lemma_delete_removes_one(lines: Seq<Seq<char>>, name: Seq<char>)
    requires
        first_match(data_lines(lines), name) is Some,
    ensures
        ({
            let d = data_lines(lines);
            let i = first_match(d, name)->Some_0;
            &&& 0 <= i < d.len()
            &&& delete_outcome(d, name) == d.remove(i)
            &&& delete_outcome(d, name).len() == d.len() - 1
            &&& (forall|j: int| 0 <= j < d.len() && j != i ==> d[j] != d[i]) ==> !delete_outcome(
                d,
                name,
            ).contains(d[i])
        }),
{
    let d = data_lines(lines);
    lemma_first_match_is_first(d, name);
    let i = first_match(d, name)->Some_0;
    let r = d.remove(i);
    if (forall|j: int| 0 <= j < d.len() && j != i ==> d[j] != d[i]) {
        if r.contains(d[i]) {
            let k = choose|k: int| 0 <= k < r.len() && r[k] == d[i];
            if k < i {
                assert(r[k] == d[k]);
            } else {
                assert(r[k] == d[k + 1]);
            }
        }
    }
}

/// Deleting a name that no line starts with, from a file of data lines only,
/// leaves its lines as they were.
pub proof fn lemma_delete_missing_is_noop(lines: Seq<Seq<char>>, name: Seq<char>)
    requires
        forall|j: int| 0 <= j < lines.len() ==> is_data_line(#[trigger] lines[j]),
        forall|j: int| 0 <= j < lines.len() ==> !has_prefix(#[trigger] lines[j], name),
    ensures
        delete_outcome(data_lines(lines), name) == lines,
{
    lemma_data_lines_all(lines);
    lemma_first_match_is_first(lines, name);
}

/// Updating a name that the first matching line starts with keeps the number
/// of lines, and the store read again maps the name to the new secret, where
/// no later line gives the name.
pub proof fn lemma_update_then_reopen(lines: Seq<Seq<char>>, name: Seq<char>, secret: Seq<char>)
    requires
        valid_entry(name, secret),
        plain_name(name),
        plain_secret(secret),
        first_match(data_lines(lines), name) is Some,
        forall|j: int|
            first_match(data_lines(lines), name)->Some_0 < j < data_lines(lines).len()
                ==> !(#[trigger] parse_line_spec(data_lines(lines)[j]) matches Some((n, _)) && n
                == name),
    ensures
        update_outcome(data_lines(lines), name, secret).len() == data_lines(lines).len(),
        parse_store(update_outcome(data_lines(lines), name, secret)).contains_key(name),
        parse_store(update_outcome(data_lines(lines), name, secret))[name] == secret,
{
    let d = data_lines(lines);
    lemma_first_match_is_first(d, name);
    let i = first_match(d, name)->Some_0;
    let u = update_outcome(d, name, secret);
    lemma_entry_line_parses(name, secret);
    assert forall|j: int| i < j < u.len() implies !(#[trigger] parse_line_spec(u[j]) matches Some((
        n,
        _,
    )) && n == name) by {
        assert(u[j] == d[j]);
    }
    lemma_last_line_counts(u, i, name, secret);
}

/// Comment or empty lines followed by the lines of entries with distinct
/// plain names give exactly those entries.
proof fn lemma_header_then_entries(header: Seq<Seq<char>>, entries: Seq<(Seq<char>, Seq<char>)>)
    requires
        forall|j: int| 0 <= j < header.len() ==> !is_data_line(#[trigger] header[j]),
        forall|j: int|
            0 <= j < entries.len() ==> plain_name(#[trigger] entries[j].0) && plain_secret(
                entries[j].1,
            ),
        forall|i: int, j: int|
            0 <= i < entries.len() && 0 <= j < entries.len() && i != j ==> entries[i].0
                != entries[j].0,
    ensures
        parse_store(header + entry_lines(entries)).dom().finite(),
        parse_store(header + entry_lines(entries)).len() == entries.len(),
        forall|j: int|
            0 <= j < entries.len() ==> parse_store(header + entry_lines(entries)).contains_key(
                #[trigger] entries[j].0,
            ) && parse_store(header + entry_lines(entries))[entries[j].0] == entries[j].1,
    decreases entries.len(),
{
    let all = header + entry_lines(entries);
    if entries.len() == 0 {
        lemma_no_data_no_entries(header);
        assert(all =~= header);
    } else {
        let p = entries.drop_last();
        let x = entries.last();
        assert forall|j: int| 0 <= j < p.len() implies plain_name(#[trigger] p[j].0) && plain_secret(
            p[j].1,
        ) by {
            assert(p[j] == entries[j]);
        }
        lemma_header_then_entries(header, p);
        let before = header + entry_lines(p);
        assert(all.drop_last() =~= before);
        assert(all.last() == entry_line(x.0, x.1));
        lemma_entry_line_parses(x.0, x.1);
        let m = parse_store(before);
        assert(parse_store(all) == m.insert(x.0, x.1));
        assert(!m.contains_key(x.0)) by {
            if m.contains_key(x.0) {
                // every key of m is the name of an earlier entry
                lemma_keys_from_entries(header, p, x.0);
                let k = choose|k: int| 0 <= k < p.len() && p[k].0 == x.0;
                assert(entries[k].0 == entries[entries.len() - 1].0);
            }
        }
        assert forall|j: int| 0 <= j < entries.len() implies parse_store(all).contains_key(
            #[trigger] entries[j].0,
        ) && parse_store(all)[entries[j].0] == entries[j].1 by {
            if j < entries.len() - 1 {
                assert(entries[j] == p[j]);
                assert(entries[j].0 != x.0);
            }
        }
    }
}

/// Every name that comment lines and entry lines give is the name of an entry.
proof fn lemma_keys_from_entries(
    header: Seq<Seq<char>>,
    entries: Seq<(Seq<char>, Seq<char>)>,
    k: Seq<char>,
)
    requires
        forall|j: int| 0 <= j < header.len() ==> !is_data_line(#[trigger] header[j]),
        forall|j: int|
            0 <= j < entries.len() ==> plain_name(#[trigger] entries[j].0) && plain_secret(
                entries[j].1,
            ),
        parse_store(header + entry_lines(entries)).contains_key(k),
    ensures
        exists|j: int| 0 <= j < entries.len() && entries[j].0 == k,
    decreases entries.len(),
{
    let all = header + entry_lines(entries);
    if entries.len() == 0 {
        lemma_no_data_no_entries(header);
        assert(all =~= header);
    } else {
        let p = entries.drop_last();
        let x = entries.last();
        assert(all.drop_last() =~= header + entry_lines(p));
        lemma_entry_line_parses(x.0, x.1);
        if x.0 != k {
            assert forall|j: int| 0 <= j < p.len() implies plain_name(#[trigger] p[j].0)
                && plain_secret(p[j].1) by {
                assert(p[j] == entries[j]);
            }
            lemma_keys_from_entries(header, p, k);
            let j = choose|j: int| 0 <= j < p.len() && p[j].0 == k;
            assert(entries[j] == p[j]);
        } else {
            assert(entries[entries.len() - 1].0 == k);
        }
    }
}

/// A store file that holds only the header of a new store gives no entry.
pub proof fn lemma_template_is_empty(lines: Seq<Seq<char>>)
    requires
        forall|j: int| 0 <= j < lines.len() ==> lines[j].len() > 0 && #[trigger] lines[j][0]
            == '#',
    ensures
        parse_store(lines) == Map::<Seq<char>, Seq<char>>::empty(),
{
    assert forall|j: int| 0 <= j < lines.len() implies !is_data_line(#[trigger] lines[j]) by {
        assert(lines[j][0] == '#');
    }
    lemma_no_data_no_entries(lines);
}

/// Comment and empty lines give nothing: a file reads as its data lines do.
proof fn lemma_parse_data_lines(lines: Seq<Seq<char>>)
    ensures
        parse_store(data_lines(lines)) == parse_store(lines),
    decreases lines.len(),
{
    if lines.len() > 0 {
        let p = lines.drop_last();
        lemma_parse_data_lines(p);
        if is_data_line(lines.last()) {
            assert(data_lines(lines).drop_last() =~= data_lines(p));
        }
    }
}

/// A file whose data lines are the lines of entries with distinct plain
/// names, with comment and empty lines anywhere among them, reads back as
/// exactly those entries: as many as were written, each name with its secret.
pub proof fn lemma_round_trip(lines: Seq<Seq<char>>, entries: Seq<(Seq<char>, Seq<char>)>)
    requires
        data_lines(lines) == entry_lines(entries),
        forall|j: int|
            0 <= j < entries.len() ==> plain_name(#[trigger] entries[j].0) && plain_secret(
                entries[j].1,
            ),
        forall|i: int, j: int|
            0 <= i < entries.len() && 0 <= j < entries.len() && i != j ==> entries[i].0
                != entries[j].0,
    ensures
        parse_store(lines).dom().finite(),
        parse_store(lines).len() == entries.len(),
        forall|j: int|
            0 <= j < entries.len() ==> parse_store(lines).contains_key(#[trigger] entries[j].0)
                && parse_store(lines)[entries[j].0] == entries[j].1,
{
    lemma_parse_data_lines(lines);
    let none = Seq::<Seq<char>>::empty();
    assert(none + entry_lines(entries) =~= entry_lines(entries));
    lemma_header_then_entries(none, entries);
}

} // verus!
