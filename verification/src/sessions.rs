//! Session enumeration: parsing desktop-entry files through an INI
//! reader, resolving the directories to scan, and merging the scanned
//! entries with the operator's override command.

use vstd::prelude::*;

use crate::text::{split_on, split_str, str_eq};

verus! {

/// A selectable session type: a human label and the command that
/// launches it.
#[derive(Debug)]
pub struct SessionEntry {
    pub display_name: String,
    pub exec_command: String,
}

/// The mathematical value of a `SessionEntry`.
pub ghost struct SessionView {
    pub name: Seq<char>,
    pub exec_cmd: Seq<char>,
}

impl View for SessionEntry {
    type V = SessionView;

    open spec fn view(&self) -> SessionView {
        SessionView { name: self.display_name@, exec_cmd: self.exec_command@ }
    }
}

impl DeepView for SessionEntry {
    type V = SessionView;

    open spec fn deep_view(&self) -> SessionView {
        self.view()
    }
}

/// An INI document as plain values: the sections in document order,
/// each a possibly absent name and its key/value properties in order.
pub type IniDoc = Seq<(Option<Seq<char>>, Seq<(Seq<char>, Seq<char>)>)>;

/// The name for what the INI reader yields on a given text, or nothing
/// where the text is not well-formed INI.
pub uninterp spec fn ini_doc_of(s: Seq<char>) -> Option<IniDoc>;

/// Declares `ini::ParseError`, the INI reader's error type.
#[verifier::external_type_specification]
#[verifier::external_body]
pub struct ExParseError(ini::ParseError);

/// Relies on `ini::Ini::load_from_str`: parses INI text into named
/// sections of key/value properties, kept in document order.
#[verifier::external_body]
fn parse_ini_doc(s: &str) -> (r: Result<
    Vec<(Option<String>, Vec<(String, String)>)>,
    ini::ParseError,
>)
    ensures
        r is Ok <==> ini_doc_of(s@) is Some,
        r matches Ok(doc) ==> Some(doc.deep_view()) == ini_doc_of(s@),
{
    let ini = ini::Ini::load_from_str(s)?;
    Ok(
        ini.iter().map(
            |sec: (Option<&str>, &ini::Properties)|
                (
                    sec.0.map(|name| name.to_string()),
                    sec.1.iter().map(|kv: (&str, &str)| (kv.0.to_string(), kv.1.to_string())).collect(),
                ),
        ).collect(),
    )
}

/// The first section carrying the given name, as the INI reader's own
/// section lookup finds it.
pub open spec fn lookup_section(doc: IniDoc, name: Seq<char>) -> Option<
    Seq<(Seq<char>, Seq<char>)>,
>
    decreases doc.len(),
{
    if doc.len() == 0 {
        None
    } else if doc[0].0 == Some(name) {
        Some(doc[0].1)
    } else {
        lookup_section(doc.skip(1), name)
    }
}

/// The first value stored under the given key.
pub open spec fn lookup_prop(props: Seq<(Seq<char>, Seq<char>)>, key: Seq<char>) -> Option<
    Seq<char>,
>
    decreases props.len(),
{
    if props.len() == 0 {
        None
    } else if props[0].0 == key {
        Some(props[0].1)
    } else {
        lookup_prop(props.skip(1), key)
    }
}

/// Why a single desktop-entry file contributes no session: it is not
/// well-formed INI, or the required section or one of its two required
/// keys is missing.  Each failure is local to that file.
#[derive(PartialEq, Eq, Structural, Clone, Copy, Debug)]
pub enum DesktopError {
    Syntax,
    MissingSection,
    MissingName,
    MissingExec,
}

/// What a desktop-entry file means: its `Desktop Entry` section must
/// hold both a `Name` and an `Exec` key, which become the session's
/// label and launch command.
pub open spec fn desktop_entry_spec(content: Seq<char>) -> Result<SessionView, DesktopError> {
    match ini_doc_of(content) {
        None => Err(DesktopError::Syntax),
        Some(doc) => match lookup_section(doc, "Desktop Entry"@) {
            None => Err(DesktopError::MissingSection),
            Some(props) => match lookup_prop(props, "Name"@) {
                None => Err(DesktopError::MissingName),
                Some(name) => match lookup_prop(props, "Exec"@) {
                    None => Err(DesktopError::MissingExec),
                    Some(cmd) => Ok(SessionView { name, exec_cmd: cmd }),
                },
            },
        },
    }
}

fn find_section(doc: &Vec<(Option<String>, Vec<(String, String)>)>, name: &str) -> (r: Option<
    usize,
>)
    ensures
        match r {
            Some(i) => i < doc@.len() && lookup_section(doc.deep_view(), name@) == Some(
                doc.deep_view()[i as int].1,
            ),
            None => lookup_section(doc.deep_view(), name@) is None,
        },
{
    let ghost full = doc.deep_view();
    let mut i: usize = 0;
    proof {
        assert(full.skip(0) =~= full);
    }
    while i < doc.len()
        invariant
            i <= doc@.len(),
            full == doc.deep_view(),
            lookup_section(full.skip(i as int), name@) == lookup_section(full, name@),
        decreases doc@.len() - i,
    {
        let ghost rest = full.skip(i as int);
        proof {
            assert(rest[0] == full[i as int]);
            assert(rest.skip(1) =~= full.skip(i + 1));
        }
        let matches_name = match &doc[i].0 {
            Some(nm) => str_eq(nm.as_str(), name),
            None => false,
        };
        if matches_name {
            return Some(i);
        }
        proof {
            assert(full[i as int].0 != Some(name@));
        }
        i = i + 1;
    }
    proof {
        assert(full.skip(doc@.len() as int) =~= IniDoc::empty());
    }
    None
}

fn find_prop(props: &Vec<(String, String)>, key: &str) -> (r: Option<String>)
    ensures
        match r {
            Some(v) => lookup_prop(props.deep_view(), key@) == Some(v@),
            None => lookup_prop(props.deep_view(), key@) is None,
        },
{
    let ghost full = props.deep_view();
    let mut i: usize = 0;
    proof {
        assert(full.skip(0) =~= full);
    }
    while i < props.len()
        invariant
            i <= props@.len(),
            full == props.deep_view(),
            lookup_prop(full.skip(i as int), key@) == lookup_prop(full, key@),
        decreases props@.len() - i,
    {
        let ghost rest = full.skip(i as int);
        proof {
            assert(rest[0] == full[i as int]);
            assert(rest.skip(1) =~= full.skip(i + 1));
        }
        if str_eq(props[i].0.as_str(), key) {
            return Some(props[i].1.clone());
        }
        proof {
            assert(full[i as int].0 != key@);
        }
        i = i + 1;
    }
    proof {
        assert(full.skip(props@.len() as int) =~= Seq::<(Seq<char>, Seq<char>)>::empty());
    }
    None
}

/// Parses one desktop-entry file, given as its text, into a session
/// entry, returning exactly what `desktop_entry_spec` ascribes to it.
pub fn load_desktop_file(content: &str) -> (r: Result<SessionEntry, DesktopError>)
    ensures
        match r {
            Ok(e) => desktop_entry_spec(content@) == Ok::<SessionView, DesktopError>(e@),
            Err(x) => desktop_entry_spec(content@) == Err::<SessionView, DesktopError>(x),
        },
{
    let doc = match parse_ini_doc(content) {
        Ok(d) => d,
        Err(_) => {
            return Err(DesktopError::Syntax);
        },
    };
    let section = match find_section(&doc, "Desktop Entry") {
        Some(i) => &doc[i].1,
        None => {
            return Err(DesktopError::MissingSection);
        },
    };
    let name = match find_prop(section, "Name") {
        Some(n) => n,
        None => {
            return Err(DesktopError::MissingName);
        },
    };
    let exec = match find_prop(section, "Exec") {
        Some(e) => e,
        None => {
            return Err(DesktopError::MissingExec);
        },
    };
    Ok(SessionEntry { display_name: name, exec_command: exec })
}

/// The directories scanned for desktop entries: the operator's
/// path-list override split on `:`, or the two fixed defaults.
pub fn sessions_dirs(sessions_path: &Option<String>) -> (r: Vec<String>)
    ensures
        match sessions_path {
            Some(p) => r.deep_view() == split_on(p@, ':'),
            None => r.deep_view() == seq![
                "/usr/share/xsessions"@,
                "/usr/share/wayland-sessions"@,
            ],
        },
{
    match sessions_path {
        Some(p) => split_str(p.as_str(), ':'),
        None => {
            let mut r: Vec<String> = Vec::new();
            r.push("/usr/share/xsessions".to_owned());
            r.push("/usr/share/wayland-sessions".to_owned());
            proof {
                assert(r.deep_view() =~= seq![
                    "/usr/share/xsessions"@,
                    "/usr/share/wayland-sessions"@,
                ]);
            }
            r
        },
    }
}

/// The sessions contributed by a sequence of desktop-entry files, in
/// scan order; files that fail to parse are dropped, never an error.
pub open spec fn parsed_sessions(docs: Seq<Seq<char>>) -> Seq<SessionView>
    decreases docs.len(),
{
    if docs.len() == 0 {
        Seq::empty()
    } else {
        parsed_sessions(docs.drop_last()) + match desktop_entry_spec(docs.last()) {
            Ok(e) => seq![e],
            Err(_) => Seq::<SessionView>::empty(),
        }
    }
}

/// The full session list: the override command, when present, stands
/// first as a synthetic entry whose label and command are the command
/// itself, and the scanned entries follow in order.
pub open spec fn sessions_merged(cmd: Option<Seq<char>>, docs: Seq<Seq<char>>) -> Seq<
    SessionView,
> {
    match cmd {
        Some(c) => seq![SessionView { name: c, exec_cmd: c }] + parsed_sessions(docs),
        None => parsed_sessions(docs),
    }
}

/// Builds the ordered session list from the override command and the
/// scanned desktop-entry files, given as their texts in scan order.
pub fn get_sessions(command: &Option<String>, contents: &Vec<String>) -> (r: Vec<SessionEntry>)
    ensures
        r.deep_view() == sessions_merged(command.deep_view(), contents.deep_view()),
{
    let mut out: Vec<SessionEntry> = Vec::new();
    if let Some(c) = command {
        out.push(SessionEntry { display_name: c.clone(), exec_command: c.clone() });
    }
    proof {
        assert(contents.deep_view().take(0) =~= Seq::<Seq<char>>::empty());
        match command {
            Some(c) => {
                assert(out.deep_view() =~= seq![SessionView { name: c@, exec_cmd: c@ }]);
                assert(out.deep_view() =~= sessions_merged(
                    command.deep_view(),
                    contents.deep_view().take(0),
                ));
            },
            None => {
                assert(out.deep_view() =~= Seq::<SessionView>::empty());
            },
        }
    }
    let mut i: usize = 0;
    while i < contents.len()
        invariant
            i <= contents@.len(),
            out.deep_view() == sessions_merged(
                command.deep_view(),
                contents.deep_view().take(i as int),
            ),
        decreases contents@.len() - i,
    {
        let ghost prefix = contents.deep_view().take(i as int);
        let ghost prefix1 = contents.deep_view().take(i + 1);
        proof {
            assert(prefix1.drop_last() =~= prefix);
            assert(prefix1.last() == contents.deep_view()[i as int]);
            assert(contents.deep_view()[i as int] == contents@[i as int]@);
        }
        match load_desktop_file(contents[i].as_str()) {
            Ok(e) => {
                let ghost old_out = out.deep_view();
                out.push(e);
                proof {
                    assert(out.deep_view() =~= old_out + seq![e@]);
                    assert(parsed_sessions(prefix1) == parsed_sessions(prefix) + seq![e@]);
                    match command.deep_view() {
                        Some(c) => {
                            assert(seq![SessionView { name: c, exec_cmd: c }] + (parsed_sessions(
                                prefix,
                            ) + seq![e@]) =~= (seq![SessionView { name: c, exec_cmd: c }]
                                + parsed_sessions(prefix)) + seq![e@]);
                        },
                        None => {},
                    }
                }
            },
            Err(_) => {
                proof {
                    assert(parsed_sessions(prefix1) =~= parsed_sessions(prefix)
                        + Seq::<SessionView>::empty());
                    assert(parsed_sessions(prefix1) =~= parsed_sessions(prefix));
                }
            },
        }
        i = i + 1;
    }
    proof {
        assert(contents.deep_view().take(contents@.len() as int) =~= contents.deep_view());
    }
    out
}

/// Merging is order-preserving and the override always comes first:
/// with an override command the merged list begins with the synthetic
/// override entry, and the scanned entries follow it unchanged.
pub proof fn lemma_override_first(cmd: Seq<char>, docs: Seq<Seq<char>>)
    ensures
        sessions_merged(Some(cmd), docs).len() == 1 + parsed_sessions(docs).len(),
        sessions_merged(Some(cmd), docs)[0] == (SessionView { name: cmd, exec_cmd: cmd }),
        sessions_merged(Some(cmd), docs).skip(1) == parsed_sessions(docs),
{
    assert(sessions_merged(Some(cmd), docs).skip(1) =~= parsed_sessions(docs));
}

} // verus!
