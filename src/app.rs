//! The commands of the program and what each one decides: the text to print,
//! the code to put on the clipboard, and the write to make to the store file.
use vstd::prelude::*;
use crate::error::OvaError;
use crate::store::{
    Store, data_lines, delete_outcome, entries_map, appended_text, file_text, lines_of, names_distinct,
    render_lines, update_outcome, valid_entry,
};
use crate::text::is_blank;
use crate::totp::{get_2fa_code, is_code, is_code_of, usable_secret};

verus! {

/// A command of the program.
pub enum Command {
    /// Show the code for a name, or put it on the clipboard.
    Get { name: String, copy: Option<bool> },
    /// Add an entry.
    Add { name: String, key: String },
    /// Remove an entry.
    Remove { name: String },
    /// List the entries.
    List,
    /// Give an entry a new secret.
    Update { name: String, key: String },
}

/// The write that a command makes to the store file.
pub enum Effect {
    /// The file stays as it is.
    Nothing,
    /// This text is appended to the file.
    Append(String),
    /// The file's whole content is replaced by this text.
    Rewrite(String),
}

/// What a command decided.
pub struct Outcome {
    /// The write to make to the store file.
    pub write: Effect,
    /// The text to put on the clipboard, if any.
    pub copy: Option<String>,
    /// The lines to print.
    pub output: Vec<String>,
}

/// The program, with the command it was given.
pub struct App {
    pub command: Command,
}

/// The text `a` followed by `b` and `c`.
fn concat3(a: &str, b: &str, c: &str) -> (r: String)
    ensures
        r@ == a@ + b@ + c@,
{
    let mut s = String::from_str(a);
    s.append(b);
    s.append(c);
    s
}

/// The row that lists an entry: name, a tab, secret.
pub open spec fn row(name: Seq<char>, secret: Seq<char>) -> Seq<char> {
    name + seq!['\t'] + secret
}

/// The lines that list the entries `e` under a header.
pub open spec fn listing(out: Seq<String>, e: Seq<(String, String)>) -> bool {
    out.len() == e.len() + 2 && out[0]@ == "Key\tValue"@ && out[1]@ == "-----\t-----"@ && forall|
        i: int,
    |
        0 <= i < e.len() ==> #[trigger] out[i + 2]@ == row(e[i].0@, e[i].1@)
}

/// What `run` decides for `command` on the snapshot `keys`, and on the text
/// `text` of the store file and its lines `lines`.
pub open spec fn run_spec(
    command: Command,
    keys: Map<Seq<char>, Seq<char>>,
    text: Seq<char>,
    lines: Seq<Seq<char>>,
    r: Result<Outcome, OvaError>,
) -> bool {
    match command {
        Command::Get { name, copy } => {
            &&& !keys.contains_key(name@) ==> r == Err::<Outcome, OvaError>(OvaError::NotFound)
            &&& keys.contains_key(name@) && !usable_secret(keys[name@]) ==> r == Err::<
                Outcome,
                OvaError,
            >(OvaError::InvalidSecret)
            &&& keys.contains_key(name@) && usable_secret(keys[name@]) ==> (r is Ok || r == Err::<
                Outcome,
                OvaError,
            >(OvaError::ClockError))
            &&& r matches Err(e) ==> e == OvaError::NotFound || e == OvaError::InvalidSecret || e
                == OvaError::ClockError
            &&& r matches Ok(o) ==> {
                &&& keys.contains_key(name@)
                &&& o.write == Effect::Nothing
                &&& o.output@.len() == 1
                &&& match o.copy {
                    Some(c) => copy is Some && is_code(c@) && is_code_of(keys[name@], c@)
                        && o.output@[0]@ == "Copied code for "@ + name@ + " to clipboard"@,
                    None => copy is None && o.output@[0]@.take(5) == "Key: "@ && is_code(
                        o.output@[0]@.skip(5),
                    ) && is_code_of(keys[name@], o.output@[0]@.skip(5)),
                }
            }
        },
        Command::Add { name, key } => {
            &&& !valid_entry(name@, key@) ==> r == Err::<Outcome, OvaError>(
                OvaError::ValidationError,
            )
            &&& valid_entry(name@, key@) && keys.contains_key(name@) ==> r == Err::<
                Outcome,
                OvaError,
            >(OvaError::DuplicateKey)
            &&& valid_entry(name@, key@) && !keys.contains_key(name@) ==> (r matches Ok(o) && (
            o.write matches Effect::Append(l) && l@ == appended_text(text, name@, key@))
                && o.copy is None && o.output@.len() == 1 && o.output@[0]@ == "Added "@ + name@
                + " with key "@ + key@)
        },
        Command::Remove { name } => {
            &&& is_blank(name@) ==> r == Err::<Outcome, OvaError>(OvaError::ValidationError)
            &&& !is_blank(name@) ==> (r matches Ok(o) && (o.write matches Effect::Rewrite(t)
                && t@ == file_text(delete_outcome(data_lines(lines), name@))) && o.copy is None
                && o.output@.len() == 1 && o.output@[0]@ == "Removed "@ + name@)
        },
        Command::List => r matches Ok(o) && o.write == Effect::Nothing && o.copy is None && exists|
            e: Seq<(String, String)>,
        |
            #[trigger] entries_map(e) == keys && names_distinct(e) && listing(o.output@, e),
        Command::Update { name, key } => {
            &&& !valid_entry(name@, key@) ==> r == Err::<Outcome, OvaError>(
                OvaError::ValidationError,
            )
            &&& valid_entry(name@, key@) ==> (r matches Ok(o) && (o.write matches Effect::Rewrite(
                t,
            ) && t@ == file_text(update_outcome(data_lines(lines), name@, key@))) && o.copy is None
                && o.output@.len() == 1 && o.output@[0]@ == "Updated "@ + name@ + " with key "@
                + key@)
        },
    }
}

impl App {
    /// The program with `command` to run.
    pub fn new(command: Command) -> (r: App)
        ensures
            r.command == command,
    {
        App { command }
    }

    /// Runs the command on `store`, the snapshot taken when the store file
    /// was opened, and on `file_text`, the store file's text as read now, and
    /// `file_lines`, its lines, and says what is to be printed, copied and
    /// written.
    pub fn run(&self, store: &Store, file_text: &str, file_lines: &Vec<String>) -> (r: Result<
        Outcome,
        OvaError,
    >)
        ensures
            run_spec(self.command, store@, file_text@, lines_of(file_lines@), r),
    {
        match &self.command {
            Command::Get { name, copy } => {
                let key = match store.get(name) {
                    Some(k) => k,
                    None => return Err(OvaError::NotFound),
                };
                let code = get_2fa_code(key.as_str())?;
                let mut output: Vec<String> = Vec::new();
                if copy.is_some() {
                    output.push(concat3("Copied code for ", name.as_str(), " to clipboard"));
                    Ok(Outcome { write: Effect::Nothing, copy: Some(code), output })
                } else {
                    let line = concat3("Key: ", code.as_str(), "");
                    proof {
                        reveal_strlit("Key: ");
                        reveal_strlit("");
                        assert(line@.take(5) =~= "Key: "@);
                        assert(line@.skip(5) =~= code@);
                    }
                    output.push(line);
                    Ok(Outcome { write: Effect::Nothing, copy: None, output })
                }
            },
            Command::Add { name, key } => {
                let line = store.insert_into_store(name, key, file_text)?;
                let mut output: Vec<String> = Vec::new();
                let mut msg = concat3("Added ", name.as_str(), " with key ");
                msg.append(key.as_str());
                output.push(msg);
                Ok(Outcome { write: Effect::Append(line), copy: None, output })
            },
            Command::Remove { name } => {
                let lines = store.delete_from_store(name, file_lines)?;
                let mut output: Vec<String> = Vec::new();
                output.push(concat3("Removed ", name.as_str(), ""));
                proof {
                    reveal_strlit("");
                    assert(output@[0]@ =~= "Removed "@ + name@);
                }
                Ok(Outcome { write: Effect::Rewrite(render_lines(&lines)), copy: None, output })
            },
            Command::List => {
                let entries = store.list();
                let mut output: Vec<String> = Vec::new();
                output.push(String::from_str("Key\tValue"));
                output.push(String::from_str("-----\t-----"));
                let mut i: usize = 0;
                while i < entries.len()
                    invariant
                        i <= entries@.len(),
                        output@.len() == i + 2,
                        output@[0]@ == "Key\tValue"@,
                        output@[1]@ == "-----\t-----"@,
                        forall|j: int|
                            0 <= j < i ==> #[trigger] output@[j + 2]@ == row(
                                entries@[j].0@,
                                entries@[j].1@,
                            ),
                    decreases entries@.len() - i,
                {
                    let line = concat3(entries[i].0.as_str(), "\t", entries[i].1.as_str());
                    proof {
                        reveal_strlit("\t");
                    }
                    output.push(line);
                    i = i + 1;
                }
                proof {
                    assert(listing(output@, entries@));
                    assert(entries_map(entries@) == store@);
                }
                Ok(Outcome { write: Effect::Nothing, copy: None, output })
            },
            Command::Update { name, key } => {
                let lines = store.update_store(name, key, file_lines)?;
                let mut output: Vec<String> = Vec::new();
                let mut msg = concat3("Updated ", name.as_str(), " with key ");
                msg.append(key.as_str());
                output.push(msg);
                Ok(Outcome { write: Effect::Rewrite(render_lines(&lines)), copy: None, output })
            },
        }
    }
}

} // verus!
