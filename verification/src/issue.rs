//! Host identity and issue-banner rendering: expanding the
//! two-character escape sequences of a banner template in a single
//! left-to-right pass over the template.

use vstd::prelude::*;

use crate::text::{dec_str, parse_u64, parse_u64_spec, push_char, u64_to_string};

verus! {

/// The system identification strings that banner escapes expand to.
pub struct UtsInfo {
    pub sysname: String,
    pub nodename: String,
    pub release: String,
    pub version: String,
    pub machine: String,
}

/// The mathematical value of a `UtsInfo`.
pub ghost struct UtsView {
    pub sysname: Seq<char>,
    pub nodename: Seq<char>,
    pub release: Seq<char>,
    pub version: Seq<char>,
    pub machine: Seq<char>,
}

impl View for UtsInfo {
    type V = UtsView;

    open spec fn view(&self) -> UtsView {
        UtsView {
            sysname: self.sysname@,
            nodename: self.nodename@,
            release: self.release@,
            version: self.version@,
            machine: self.machine@,
        }
    }
}

/// Declares `nix::errno::Errno`, the error type of `nix` system calls,
/// so that the `uname` wrapper can hand it through.
#[verifier::external_type_specification]
#[verifier::external_body]
pub struct ExErrno(nix::errno::Errno);

/// Relies on `nix::sys::utsname::uname`: fills a utsname structure
/// with the kernel's identification strings.  Nothing can be promised
/// about the strings themselves, which depend on the machine.
#[verifier::external_body]
fn uname_info() -> Result<UtsInfo, nix::errno::Errno> {
    match nix::sys::utsname::uname() {
        Ok(u) => Ok(
            UtsInfo {
                sysname: u.sysname().to_string_lossy().into_owned(),
                nodename: u.nodename().to_string_lossy().into_owned(),
                release: u.release().to_string_lossy().into_owned(),
                version: u.version().to_string_lossy().into_owned(),
                machine: u.machine().to_string_lossy().into_owned(),
            },
        ),
        Err(e) => Err(e),
    }
}

/// The current network node name, or the empty string if the system
/// refuses to identify itself.
pub fn get_hostname() -> String {
    match uname_info() {
        Ok(u) => u.nodename,
        Err(_) => String::new(),
    }
}

/// The characters that may follow a backslash to form an escape.
pub open spec fn is_issue_escape(c: char) -> bool {
    c == 'S' || c == 'l' || c == 's' || c == 'r' || c == 'v' || c == 'n' || c == 'm' || c == '\\'
}

/// What a single escape expands to: `\S` the fixed OS label, `\l` the
/// terminal name, `\s`/`\r`/`\v`/`\n`/`\m` kernel identification
/// strings, and `\\` one literal backslash.
pub open spec fn escape_expansion(c: char, vtnr: nat, u: UtsView) -> Seq<char> {
    if c == 'S' {
        "Linux"@
    } else if c == 'l' {
        "tty"@ + dec_str(vtnr)
    } else if c == 's' {
        u.sysname
    } else if c == 'r' {
        u.release
    } else if c == 'v' {
        u.version
    } else if c == 'n' {
        u.nodename
    } else if c == 'm' {
        u.machine
    } else {
        seq!['\\']
    }
}

/// The rendering of a banner template: one left-to-right pass in which
/// each recognized two-character escape is replaced by its expansion,
/// expansions are never rescanned, and every other character (a lone
/// trailing backslash included) is copied through unchanged.
pub open spec fn issue_rendered(t: Seq<char>, vtnr: nat, u: UtsView) -> Seq<char>
    decreases t.len(),
{
    if t.len() == 0 {
        Seq::empty()
    } else if t[0] == '\\' && t.len() >= 2 && is_issue_escape(t[1]) {
        escape_expansion(t[1], vtnr, u) + issue_rendered(t.skip(2), vtnr, u)
    } else {
        seq![t[0]] + issue_rendered(t.skip(1), vtnr, u)
    }
}

/// Renders a banner template against the given terminal number and
/// system identification, producing exactly `issue_rendered`.
pub fn render_issue(template: &str, vtnr: u64, uts: &UtsInfo) -> (r: String)
    ensures
        r@ == issue_rendered(template@, vtnr as nat, uts@),
{
    let n: usize = template.unicode_len();
    let mut out = String::new();
    let mut i: usize = 0;
    proof {
        assert(template@.skip(0) =~= template@);
        assert(out@ + issue_rendered(template@, vtnr as nat, uts@) =~= issue_rendered(
            template@,
            vtnr as nat,
            uts@,
        ));
    }
    while i < n
        invariant
            i <= n,
            n == template@.len(),
            out@ + issue_rendered(template@.skip(i as int), vtnr as nat, uts@) == issue_rendered(
                template@,
                vtnr as nat,
                uts@,
            ),
        decreases n - i,
    {
        let ghost rem = template@.skip(i as int);
        let ghost u = uts@;
        let ghost v = vtnr as nat;
        let c = template.get_char(i);
        proof {
            assert(rem[0] == template@[i as int]);
            assert(rem.skip(1) =~= template@.skip(i + 1));
        }
        let mut expanded = false;
        if c == '\\' && i + 1 < n {
            let e = template.get_char(i + 1);
            proof {
                assert(rem[1] == template@[i + 1]);
                assert(rem.skip(2) =~= template@.skip(i + 2));
            }
            if e == 'S' || e == 'l' || e == 's' || e == 'r' || e == 'v' || e == 'n' || e == 'm'
                || e == '\\' {
                let ghost old_out = out@;
                if e == 'S' {
                    out.append("Linux");
                } else if e == 'l' {
                    out.append("tty");
                    let num = u64_to_string(vtnr);
                    out.append(num.as_str());
                    proof {
                        assert(old_out + ("tty"@ + dec_str(v)) =~= (old_out + "tty"@) + dec_str(
                            v,
                        ));
                    }
                } else if e == 's' {
                    out.append(uts.sysname.as_str());
                } else if e == 'r' {
                    out.append(uts.release.as_str());
                } else if e == 'v' {
                    out.append(uts.version.as_str());
                } else if e == 'n' {
                    out.append(uts.nodename.as_str());
                } else if e == 'm' {
                    out.append(uts.machine.as_str());
                } else {
                    push_char(&mut out, '\\');
                    proof {
                        assert(old_out.push('\\') =~= old_out + seq!['\\']);
                    }
                }
                proof {
                    assert(out@ == old_out + escape_expansion(rem[1], v, u));
                    assert(issue_rendered(rem, v, u) == escape_expansion(rem[1], v, u)
                        + issue_rendered(template@.skip(i + 2), v, u));
                    assert(out@ + issue_rendered(template@.skip(i + 2), v, u) =~= old_out + (
                    escape_expansion(rem[1], v, u) + issue_rendered(
                        template@.skip(i + 2),
                        v,
                        u,
                    )));
                }
                i = i + 2;
                expanded = true;
            }
        }
        if !expanded {
            let ghost old_out = out@;
            push_char(&mut out, c);
            proof {
                assert(issue_rendered(rem, v, u) == seq![rem[0]] + issue_rendered(
                    template@.skip(i + 1),
                    v,
                    u,
                ));
                assert(old_out.push(c) =~= old_out + seq![c]);
                assert(out@ + issue_rendered(template@.skip(i + 1), v, u) =~= old_out + (
                seq![rem[0]] + issue_rendered(template@.skip(i + 1), v, u)));
            }
            i = i + 1;
        }
    }
    proof {
        assert(template@.skip(n as int) =~= Seq::<char>::empty());
        assert(out@ + Seq::<char>::empty() =~= out@);
    }
    out
}

/// How the terminal number is read from the environment variable's
/// value: an absent variable means terminal `0`, a present value must
/// parse as a decimal integer, and anything else is a fatal
/// configuration error.
pub open spec fn vtnr_spec(var: Option<Seq<char>>) -> Option<u64> {
    match var {
        None => Some(0u64),
        Some(s) => parse_u64_spec(s),
    }
}

pub fn parse_vtnr(var: &Option<String>) -> (r: Option<u64>)
    ensures
        r == vtnr_spec(var.deep_view()),
{
    match var {
        None => Some(0),
        Some(s) => parse_u64(s.as_str()),
    }
}

/// The one fatal error of banner rendering: a terminal-number variable
/// that does not parse as an integer.
#[derive(PartialEq, Eq, Structural, Clone, Copy, Debug)]
pub enum IssueError {
    InvalidVtnr,
}

/// Renders the issue banner from the template, the terminal-number
/// variable, and the running system's identification.  No template
/// means no banner, which is not an error; an unparsable terminal
/// number is the one fatal error.
pub fn get_issue(template: &Option<String>, vtnr_var: &Option<String>) -> (r: Result<
    Option<String>,
    IssueError,
>)
    ensures
        r is Err <==> vtnr_spec(vtnr_var.deep_view()) is None,
        r is Err ==> r == Err::<Option<String>, IssueError>(IssueError::InvalidVtnr),
        r matches Ok(o) ==> (o is Some <==> template is Some),
        r matches Ok(Some(out)) ==> (exists|u: UtsView|
            out@ == issue_rendered(template.deep_view().unwrap(), vtnr_spec(
                vtnr_var.deep_view(),
            ).unwrap() as nat, u)),
{
    let vtnr = match parse_vtnr(vtnr_var) {
        Some(v) => v,
        None => {
            return Err(IssueError::InvalidVtnr);
        },
    };
    match template {
        None => Ok(None),
        Some(t) => {
            let uts = match uname_info() {
                Ok(u) => u,
                Err(_) => UtsInfo {
                    sysname: String::new(),
                    nodename: String::new(),
                    release: String::new(),
                    version: String::new(),
                    machine: String::new(),
                },
            };
            let rendered = render_issue(t.as_str(), vtnr, &uts);
            proof {
                assert(rendered@ == issue_rendered(template.deep_view().unwrap(), vtnr as nat,
                    uts@));
            }
            Ok(Some(rendered))
        },
    }
}

} // verus!
