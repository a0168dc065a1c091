//! The credential store: the lines of the store file, the snapshot of its
//! entries taken when it is opened, and the edits that insert, delete and
//! update an entry.
//!
//! The caller reads the file and hands its lines in; the edits hand back what
//! is to be written. The snapshot is never refreshed by an edit: delete and
//! update work on the lines as they are read again, not on the snapshot.
use vstd::prelude::*;
use crate::error::OvaError;
use crate::text::{
    same_text, blank, has_prefix, is_blank, split_at_eq, split_once_eq, starts_with, trim, trimmed,
    trimmed_len,
};

verus! {

/// The least number of characters of a secret, white space at its ends aside.
pub const MIN_SECRET_LEN: usize = 16;

/// The name of the store file.
pub const STORE_FILE_NAME: &'static str = "ova.store";

/// Where the store file lies on the platform that `std::env::consts::OS`
/// names `os`: the environment variable that holds the home or profile
/// directory, and the directory under it that holds `STORE_FILE_NAME`.
///
/// Fails with `EnvironmentError` on any platform but Linux, macOS and Windows.
pub fn store_location(os: &str) -> (r: Result<(&'static str, &'static str), OvaError>)
    ensures
        os@ == "linux"@ || os@ == "macos"@ ==> (r matches Ok((var, dir)) && var@ == "HOME"@
            && dir@ == ".config"@),
        os@ == "windows"@ ==> (r matches Ok((var, dir)) && var@ == "USERPROFILE"@ && dir@
            == "AppData/Local"@),
        os@ != "linux"@ && os@ != "macos"@ && os@ != "windows"@ ==> r == Err::<
            (&'static str, &'static str),
            OvaError,
        >(OvaError::EnvironmentError),
{
    proof {
        reveal_strlit("linux");
        reveal_strlit("windows");
        reveal_strlit("macos");
        assert("windows"@.len() != "linux"@.len());
        assert("macos"@[0] != "linux"@[0]);
        assert("macos"@.len() != "windows"@.len());
    }
    if same_text(os, "linux") || same_text(os, "macos") {
        Ok(("HOME", ".config"))
    } else if same_text(os, "windows") {
        Ok(("USERPROFILE", "AppData/Local"))
    } else {
        Err(OvaError::EnvironmentError)
    }
}

/// The character views of a list of lines.
pub open spec fn lines_of(v: Seq<String>) -> Seq<Seq<char>> {
    Seq::new(v.len(), |i: int| v[i]@)
}

/// A line that holds data: not empty, and not a comment starting with `#`.
pub open spec fn is_data_line(l: Seq<char>) -> bool {
    l.len() > 0 && l[0] != '#'
}

/// The data lines of `lines`, in their order.
pub open spec fn data_lines(lines: Seq<Seq<char>>) -> Seq<Seq<char>>
    decreases lines.len(),
{
    if lines.len() == 0 {
        Seq::empty()
    } else {
        let rest = data_lines(lines.drop_last());
        if is_data_line(lines.last()) {
            rest.push(lines.last())
        } else {
            rest
        }
    }
}

/// The entry that a line holds: a data line split at its first `=`, both
/// sides trimmed.
pub open spec fn parse_line_spec(l: Seq<char>) -> Option<(Seq<char>, Seq<char>)> {
    if is_data_line(l) {
        match split_at_eq(l) {
            Some((a, b)) => Some((trimmed(a), trimmed(b))),
            None => None,
        }
    } else {
        None
    }
}

/// The mapping that the lines of a store file give; where two lines give the
/// same name, the later one counts.
pub open spec fn parse_store(lines: Seq<Seq<char>>) -> Map<Seq<char>, Seq<char>>
    decreases lines.len(),
{
    if lines.len() == 0 {
        Map::empty()
    } else {
        let m = parse_store(lines.drop_last());
        match parse_line_spec(lines.last()) {
            Some((k, v)) => m.insert(k, v),
            None => m,
        }
    }
}

/// A text that has a last line without its `\n`.
pub open spec fn ends_open(text: Seq<char>) -> bool {
    text.len() > 0 && text.last() != '\n'
}

/// What is appended to the store file's text `text` for a new entry: the
/// entry's line and a `\n`, after a `\n` that ends the last line where it has
/// none.
pub open spec fn appended_text(text: Seq<char>, name: Seq<char>, secret: Seq<char>) -> Seq<char> {
    (if ends_open(text) {
        seq!['\n']
    } else {
        Seq::<char>::empty()
    }) + entry_line(name, secret) + seq!['\n']
}

/// The pieces of a text between its `\n`s: one more than it has `\n`s.
pub open spec fn text_pieces(text: Seq<char>) -> Seq<Seq<char>>
    decreases text.len(),
{
    if text.len() == 0 {
        seq![Seq::<char>::empty()]
    } else if text.last() == '\n' {
        text_pieces(text.drop_last()).push(Seq::empty())
    } else {
        let p = text_pieces(text.drop_last());
        p.update(p.len() - 1, p.last().push(text.last()))
    }
}

/// The lines of a text split at `\n`: a last line without `\n` counts, the
/// empty piece after a final `\n` does not.
pub open spec fn split_text(text: Seq<char>) -> Seq<Seq<char>> {
    if ends_open(text) {
        text_pieces(text)
    } else {
        text_pieces(text).drop_last()
    }
}

/// The line `name = secret`.
pub open spec fn entry_line(name: Seq<char>, secret: Seq<char>) -> Seq<char> {
    name + seq![' ', '=', ' '] + secret
}

/// The index of the first line that starts with `name`.
pub open spec fn first_match(lines: Seq<Seq<char>>, name: Seq<char>) -> Option<int>
    decreases lines.len(),
{
    if lines.len() == 0 {
        None
    } else {
        match first_match(lines.drop_last(), name) {
            Some(i) => Some(i),
            None => if has_prefix(lines.last(), name) {
                Some(lines.len() - 1)
            } else {
                None
            },
        }
    }
}

/// The lines once the first one that starts with `name` is removed.
pub open spec fn delete_outcome(lines: Seq<Seq<char>>, name: Seq<char>) -> Seq<Seq<char>> {
    match first_match(lines, name) {
        Some(i) => lines.remove(i),
        None => lines,
    }
}

/// The lines once the first one that starts with `name` is replaced by
/// `name = secret`.
pub open spec fn update_outcome(lines: Seq<Seq<char>>, name: Seq<char>, secret: Seq<char>) -> Seq<
    Seq<char>,
> {
    match first_match(lines, name) {
        Some(i) => lines.update(i, entry_line(name, secret)),
        None => lines,
    }
}

/// What an insert or an update asks of its name and secret: neither blank,
/// and the secret at least `MIN_SECRET_LEN` characters long once trimmed.
pub open spec fn valid_entry(name: Seq<char>, secret: Seq<char>) -> bool {
    !is_blank(name) && !is_blank(secret) && trimmed(secret).len() >= MIN_SECRET_LEN
}

/// The text of a file that holds `lines`: each line followed by `\n`.
pub open spec fn file_text(lines: Seq<Seq<char>>) -> Seq<char>
    decreases lines.len(),
{
    if lines.len() == 0 {
        Seq::empty()
    } else {
        file_text(lines.drop_last()) + lines.last() + seq!['\n']
    }
}

/// No two entries share a name.
pub open spec fn names_distinct(e: Seq<(String, String)>) -> bool {
    forall|i: int, j: int|
        0 <= i < e.len() && 0 <= j < e.len() && i != j ==> e[i].0@ != e[j].0@
}

/// The mapping that a list of entries gives.
pub open spec fn entries_map(e: Seq<(String, String)>) -> Map<Seq<char>, Seq<char>>
    decreases e.len(),
{
    if e.len() == 0 {
        Map::empty()
    } else {
        entries_map(e.drop_last()).insert(e.last().0@, e.last().1@)
    }
}

proof fn lemma_entries_get(e: Seq<(String, String)>, i: int)
    requires
        names_distinct(e),
        0 <= i < e.len(),
    ensures
        entries_map(e).contains_key(e[i].0@),
        entries_map(e)[e[i].0@] == e[i].1@,
    decreases e.len(),
{
    if i < e.len() - 1 {
        let p = e.drop_last();
        assert(names_distinct(p));
        lemma_entries_get(p, i);
        assert(e[e.len() - 1].0@ != e[i].0@);
    }
}

proof fn lemma_entries_absent(e: Seq<(String, String)>, k: Seq<char>)
    requires
        forall|i: int| 0 <= i < e.len() ==> e[i].0@ != k,
    ensures
        !entries_map(e).contains_key(k),
    decreases e.len(),
{
    if e.len() > 0 {
        lemma_entries_absent(e.drop_last(), k);
    }
}

proof fn lemma_entries_push(e: Seq<(String, String)>, x: (String, String))
    ensures
        entries_map(e.push(x)) == entries_map(e).insert(x.0@, x.1@),
{
    assert(e.push(x).drop_last() =~= e);
}

proof fn lemma_entries_set(e: Seq<(String, String)>, j: int, x: (String, String))
    requires
        names_distinct(e),
        0 <= j < e.len(),
        x.0@ == e[j].0@,
    ensures
        entries_map(e.update(j, x)) == entries_map(e).insert(x.0@, x.1@),
        names_distinct(e.update(j, x)),
    decreases e.len(),
{
    let u = e.update(j, x);
    if j == e.len() - 1 {
        assert(u.drop_last() =~= e.drop_last());
        assert(entries_map(u) =~= entries_map(e).insert(x.0@, x.1@));
    } else {
        let p = e.drop_last();
        assert(u.drop_last() =~= p.update(j, x));
        assert(names_distinct(p));
        lemma_entries_set(p, j, x);
        assert(e.last().0@ != x.0@);
        assert(entries_map(u) =~= entries_map(e).insert(x.0@, x.1@));
    }
}

/// The index of the entry named `name`, if there is one.
fn position_of(keys: &Vec<(String, String)>, name: &String) -> (r: Option<usize>)
    ensures
        r matches Some(j) ==> j < keys@.len() && keys@[j as int].0@ == name@,
        r is None ==> forall|j: int| 0 <= j < keys@.len() ==> keys@[j].0@ != name@,
{
    let mut j: usize = 0;
    while j < keys.len()
        invariant
            j <= keys@.len(),
            forall|i: int| 0 <= i < j ==> keys@[i].0@ != name@,
        decreases keys@.len() - j,
    {
        if keys[j].0 == *name {
            return Some(j);
        }
        j = j + 1;
    }
    None
}

/// Whether a line holds data: it is not empty and does not start with `#`.
pub fn is_data(line: &str) -> (r: bool)
    ensures
        r == is_data_line(line@),
{
    if line.is_empty() {
        false
    } else {
        line.get_char(0) != '#'
    }
}

/// The entry that a line holds: the text before its first `=` and the text
/// after it, both trimmed; `None` for a comment, a blank line or a line
/// without `=`.
pub fn parse_line(line: &str) -> (r: Option<(String, String)>)
    ensures
        r is None <==> parse_line_spec(line@) is None,
        r matches Some((k, v)) ==> parse_line_spec(line@) == Some((k@, v@)),
{
    if !is_data(line) {
        return None;
    }
    match split_once_eq(line) {
        Some((a, b)) => Some((trim(a).to_owned(), trim(b).to_owned())),
        None => None,
    }
}

/// The data lines among the lines of a store file.
pub fn read_store_file_as_string(lines: &Vec<String>) -> (r: Vec<String>)
    ensures
        lines_of(r@) == data_lines(lines_of(lines@)),
{
    let ghost all = lines_of(lines@);
    let mut out: Vec<String> = Vec::new();
    let mut i: usize = 0;
    while i < lines.len()
        invariant
            i <= lines@.len(),
            all == lines_of(lines@),
            lines_of(out@) == data_lines(all.subrange(0, i as int)),
        decreases lines@.len() - i,
    {
        let ghost before = out@;
        assert(all.subrange(0, i + 1).drop_last() =~= all.subrange(0, i as int));
        if is_data(lines[i].as_str()) {
            out.push(lines[i].clone());
            assert(lines_of(out@) =~= lines_of(before).push(all[i as int]));
        }
        i = i + 1;
    }
    assert(all.subrange(0, lines@.len() as int) =~= all);
    out
}

/// The entries of a store file, one for each name.
pub fn read_store_file(lines: &Vec<String>) -> (r: Vec<(String, String)>)
    ensures
        names_distinct(r@),
        entries_map(r@) == parse_store(lines_of(lines@)),
{
    let ghost all = lines_of(lines@);
    let mut keys: Vec<(String, String)> = Vec::new();
    let mut i: usize = 0;
    while i < lines.len()
        invariant
            i <= lines@.len(),
            all == lines_of(lines@),
            names_distinct(keys@),
            entries_map(keys@) == parse_store(all.subrange(0, i as int)),
        decreases lines@.len() - i,
    {
        assert(all.subrange(0, i + 1).drop_last() =~= all.subrange(0, i as int));
        assert(all.subrange(0, i + 1).last() == lines@[i as int]@);
        match parse_line(lines[i].as_str()) {
            Some((k, v)) => {
                match position_of(&keys, &k) {
                    Some(j) => {
                        proof {
                            lemma_entries_set(keys@, j as int, (k, v));
                        }
                        keys.set(j, (k, v));
                    },
                    None => {
                        proof {
                            lemma_entries_push(keys@, (k, v));
                        }
                        keys.push((k, v));
                    },
                }
            },
            None => {},
        }
        i = i + 1;
    }
    assert(all.subrange(0, lines@.len() as int) =~= all);
    keys
}

/// The index of the first line that starts with `name`, if any.
pub fn find_line_index(name: &String, file_content: &Vec<String>) -> (r: Option<usize>)
    ensures
        r matches Some(i) ==> first_match(lines_of(file_content@), name@) == Some(i as int),
        r is None ==> first_match(lines_of(file_content@), name@) is None,
{
    let ghost all = lines_of(file_content@);
    let mut i: usize = 0;
    while i < file_content.len()
        invariant
            i <= file_content@.len(),
            all == lines_of(file_content@),
            first_match(all.subrange(0, i as int), name@) is None,
        decreases file_content@.len() - i,
    {
        assert(all.subrange(0, i + 1).drop_last() =~= all.subrange(0, i as int));
        if starts_with(file_content[i].as_str(), name.as_str()) {
            proof {
                lemma_first_match_prefix(all, name@, i + 1);
            }
            return Some(i);
        }
        i = i + 1;
    }
    assert(all.subrange(0, file_content@.len() as int) =~= all);
    None
}

/// A match found among the first `n` lines is the first match of all of them.
proof fn lemma_first_match_prefix(lines: Seq<Seq<char>>, name: Seq<char>, n: int)
    requires
        0 <= n <= lines.len(),
        first_match(lines.subrange(0, n), name) is Some,
    ensures
        first_match(lines, name) == first_match(lines.subrange(0, n), name),
    decreases lines.len() - n,
{
    if n < lines.len() {
        assert(lines.subrange(0, n + 1).drop_last() =~= lines.subrange(0, n));
        lemma_first_match_prefix(lines, name, n + 1);
    } else {
        assert(lines.subrange(0, n) =~= lines);
    }
}

/// A match lies among the lines and starts with the name; no earlier line does.
pub proof fn lemma_first_match_is_first(lines: Seq<Seq<char>>, name: Seq<char>)
    ensures
        first_match(lines, name) matches Some(i) ==> 0 <= i < lines.len() && has_prefix(
            lines[i],
            name,
        ) && forall|j: int| 0 <= j < i ==> !has_prefix(#[trigger] lines[j], name),
        first_match(lines, name) is None ==> forall|j: int|
            0 <= j < lines.len() ==> !has_prefix(#[trigger] lines[j], name),
    decreases lines.len(),
{
    if lines.len() > 0 {
        let p = lines.drop_last();
        lemma_first_match_is_first(p, name);
        assert forall|j: int| 0 <= j < p.len() implies p[j] == lines[j] by {}
    }
}

/// The lines of the file that a new store starts with: a header of comments.
pub fn template_lines() -> (r: Vec<String>)
    ensures
        r@.len() == 5,
        r@[0]@ == "# OVA store file"@,
        r@[1]@ == "# Expected values like"@,
        r@[2]@ == "# KEY = VALUE"@,
        r@[3]@ == "# You can add keys manually"@,
        r@[4]@ == "# or use the 'ova add <name> <key>' command"@,
        forall|i: int| 0 <= i < r@.len() ==> !is_data_line(#[trigger] r@[i]@),
        forall|i: int| 0 <= i < r@.len() ==> r@[i]@.len() > 0 && r@[i]@[0] == '#',
{
    let mut r: Vec<String> = Vec::new();
    r.push("# OVA store file".to_owned());
    r.push("# Expected values like".to_owned());
    r.push("# KEY = VALUE".to_owned());
    r.push("# You can add keys manually".to_owned());
    r.push("# or use the 'ova add <name> <key>' command".to_owned());
    proof {
        reveal_strlit("# OVA store file");
        reveal_strlit("# Expected values like");
        reveal_strlit("# KEY = VALUE");
        reveal_strlit("# You can add keys manually");
        reveal_strlit("# or use the 'ova add <name> <key>' command");
    }
    r
}

/// The text of a file that holds `lines`, each followed by `\n`: the text
/// that replaces the store file after a delete or an update.
pub fn render_lines(lines: &Vec<String>) -> (r: String)
    ensures
        r@ == file_text(lines_of(lines@)),
{
    let ghost all = lines_of(lines@);
    let mut out = String::new();
    let mut i: usize = 0;
    while i < lines.len()
        invariant
            i <= lines@.len(),
            all == lines_of(lines@),
            out@ == file_text(all.subrange(0, i as int)),
        decreases lines@.len() - i,
    {
        assert(all.subrange(0, i + 1).drop_last() =~= all.subrange(0, i as int));
        let ghost before = out@;
        out.append(lines[i].as_str());
        out.append("\n");
        proof {
            reveal_strlit("\n");
            assert(out@ =~= before + all[i as int] + seq!['\n']);
        }
        i = i + 1;
    }
    assert(all.subrange(0, lines@.len() as int) =~= all);
    out
}

/// The credential store: the snapshot of the entries that the store file
/// held when it was opened, and the file's path.
pub struct Store {
    keys: Vec<(String, String)>,
    file_path: String,
}

impl View for Store {
    type V = Map<Seq<char>, Seq<char>>;

    closed spec fn view(&self) -> Map<Seq<char>, Seq<char>> {
        entries_map(self.keys@)
    }
}

impl Store {
    #[verifier::type_invariant]
    spec fn wf(&self) -> bool {
        names_distinct(self.keys@)
    }

    /// The path of the store file.
    pub closed spec fn path(&self) -> Seq<char> {
        self.file_path@
    }

    /// Opens the store whose file lies at `file_path` and holds `lines`.
    pub fn new(file_path: String, lines: &Vec<String>) -> (s: Store)
        ensures
            s@ == parse_store(lines_of(lines@)),
            s.path() == file_path@,
    {
        let keys = read_store_file(lines);
        Store { keys, file_path }
    }

    /// The path of the store file.
    pub fn file_path(&self) -> (r: &String)
        ensures
            r@ == self.path(),
    {
        &self.file_path
    }

    /// The secret stored under `name` in the snapshot.
    pub fn get(&self, name: &String) -> (r: Option<String>)
        ensures
            r is None <==> !self@.contains_key(name@),
            r matches Some(v) ==> v@ == self@[name@],
    {
        proof {
            use_type_invariant(self);
        }
        match position_of(&self.keys, name) {
            Some(j) => {
                proof {
                    lemma_entries_get(self.keys@, j as int);
                }
                Some(self.keys[j].1.clone())
            },
            None => {
                proof {
                    lemma_entries_absent(self.keys@, name@);
                }
                None
            },
        }
    }

    /// The entries of the snapshot, each name once.
    pub fn list(&self) -> (r: Vec<(String, String)>)
        ensures
            names_distinct(r@),
            entries_map(r@) == self@,
    {
        proof {
            use_type_invariant(self);
        }
        let mut r: Vec<(String, String)> = Vec::new();
        let mut i: usize = 0;
        while i < self.keys.len()
            invariant
                i <= self.keys@.len(),
                r@ == self.keys@.subrange(0, i as int),
            decreases self.keys@.len() - i,
        {
            let k = self.keys[i].0.clone();
            let v = self.keys[i].1.clone();
            r.push((k, v));
            assert(r@ =~= self.keys@.subrange(0, i + 1));
            i = i + 1;
        }
        assert(self.keys@.subrange(0, self.keys@.len() as int) =~= self.keys@);
        r
    }

    /// The text to append to the store file, whose text is now `file_text`,
    /// for a new entry `key = value`: its line on a line of its own.
    ///
    /// Fails with `ValidationError` where the name or the secret is blank or
    /// the secret is too short, and with `DuplicateKey` where the snapshot
    /// holds the name already.
    pub fn insert_into_store(&self, key: &String, value: &String, file_text: &str) -> (r: Result<
        String,
        OvaError,
    >)
        ensures
            !valid_entry(key@, value@) ==> r == Err::<String, OvaError>(OvaError::ValidationError),
            valid_entry(key@, value@) && self@.contains_key(key@) ==> r == Err::<String, OvaError>(
                OvaError::DuplicateKey,
            ),
            valid_entry(key@, value@) && !self@.contains_key(key@) ==> (r matches Ok(l) && l@
                == appended_text(file_text@, key@, value@)),
    {
        if blank(key.as_str()) || blank(value.as_str()) {
            return Err(OvaError::ValidationError);
        }
        if trimmed_len(value.as_str()) < MIN_SECRET_LEN {
            return Err(OvaError::ValidationError);
        }
        if self.get(key).is_some() {
            return Err(OvaError::DuplicateKey);
        }
        let n = file_text.unicode_len();
        let mut line = String::new();
        if n > 0 && file_text.get_char(n - 1) != '\n' {
            line.append("\n");
        }
        line.append(key.as_str());
        line.append(" = ");
        line.append(value.as_str());
        line.append("\n");
        proof {
            reveal_strlit(" = ");
            reveal_strlit("\n");
            assert(line@ =~= appended_text(file_text@, key@, value@));
        }
        Ok(line)
    }

    /// The lines of the store file once the first line that starts with
    /// `key` is removed; `file_lines` are the lines of the file as read now.
    /// Comments and blank lines are not kept. Where no line starts with `key`
    /// nothing is removed.
    ///
    /// Fails with `ValidationError` where `key` is blank.
    pub fn delete_from_store(&self, key: &String, file_lines: &Vec<String>) -> (r: Result<
        Vec<String>,
        OvaError,
    >)
        ensures
            is_blank(key@) ==> r == Err::<Vec<String>, OvaError>(OvaError::ValidationError),
            !is_blank(key@) ==> (r matches Ok(n) && lines_of(n@) == delete_outcome(
                data_lines(lines_of(file_lines@)),
                key@,
            )),
    {
        if blank(key.as_str()) {
            return Err(OvaError::ValidationError);
        }
        let mut content = read_store_file_as_string(file_lines);
        let ghost data = lines_of(content@);
        match find_line_index(key, &content) {
            Some(index) => {
                proof {
                    lemma_first_match_is_first(data, key@);
                }
                content.remove(index);
                assert(lines_of(content@) =~= data.remove(index as int));
            },
            None => {},
        }
        Ok(content)
    }

    /// The lines of the store file once the first line that starts with
    /// `key` reads `key = value`; `file_lines` are the lines of the file as
    /// read now. Comments and blank lines are not kept. Where no line starts
    /// with `key` nothing is replaced.
    ///
    /// Fails with `ValidationError` where the name or the secret is blank or
    /// the secret is too short.
    pub fn update_store(&self, key: &String, value: &String, file_lines: &Vec<String>) -> (r:
        Result<Vec<String>, OvaError>)
        ensures
            !valid_entry(key@, value@) ==> r == Err::<Vec<String>, OvaError>(
                OvaError::ValidationError,
            ),
            valid_entry(key@, value@) ==> (r matches Ok(n) && lines_of(n@) == update_outcome(
                data_lines(lines_of(file_lines@)),
                key@,
                value@,
            )),
    {
        if blank(key.as_str()) || blank(value.as_str()) {
            return Err(OvaError::ValidationError);
        }
        if trimmed_len(value.as_str()) < MIN_SECRET_LEN {
            return Err(OvaError::ValidationError);
        }
        let mut content = read_store_file_as_string(file_lines);
        let ghost data = lines_of(content@);
        match find_line_index(key, &content) {
            Some(index) => {
                proof {
                    lemma_first_match_is_first(data, key@);
                }
                let mut line = key.clone();
                line.append(" = ");
                line.append(value.as_str());
                proof {
                    reveal_strlit(" = ");
                    assert(line@ =~= entry_line(key@, value@));
                }
                content.set(index, line);
                assert(lines_of(content@) =~= data.update(index as int, entry_line(key@, value@)));
            },
            None => {},
        }
        Ok(content)
    }
}

} // verus!
