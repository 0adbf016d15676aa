//! Account enumeration: parsing passwd-style records and the UID
//! policy file that bounds which accounts are selectable.

use vstd::prelude::*;

use crate::text::{
    parse_u16, parse_u16_spec, split_on, split_str, split_whitespace_str, str_eq,
    whitespace_tokens,
};

verus! {

/// The inclusive bounds on the user ids of selectable accounts.
#[derive(Clone, Copy, PartialEq, Eq, Structural, Debug)]
pub struct UidRange {
    pub min: u16,
    pub max: u16,
}

impl Default for UidRange {
    /// The hardcoded policy used when no policy file is available.
    fn default() -> (r: Self)
        ensures
            r == (UidRange { min: 1000u16, max: 60000u16 }),
    {
        UidRange { min: 1000, max: 60000 }
    }
}

/// A selectable login account: the username and, when the gecos field
/// is not empty, a human-readable display name.
#[derive(Debug)]
pub struct Account {
    pub username: String,
    pub display_name: Option<String>,
}

/// The mathematical value of an `Account`.
pub ghost struct AccountView {
    pub username: Seq<char>,
    pub display_name: Option<Seq<char>>,
}

impl View for Account {
    type V = AccountView;

    open spec fn view(&self) -> AccountView {
        AccountView {
            username: self.username@,
            display_name: match self.display_name {
                Some(n) => Some(n@),
                None => None,
            },
        }
    }
}

impl DeepView for Account {
    type V = AccountView;

    open spec fn deep_view(&self) -> AccountView {
        self.view()
    }
}

/// The account that a single passwd-style line contributes, if any: the
/// line must split into at least five colon-separated fields, the third
/// must parse as a 16-bit uid lying inside `range`, and the fifth
/// (gecos) becomes the display name unless it is empty.
pub open spec fn passwd_account(line: Seq<char>, range: UidRange) -> Option<AccountView> {
    let fields = split_on(line, ':');
    if fields.len() >= 5 {
        match parse_u16_spec(fields[2]) {
            Some(uid) => if range.min <= uid && uid <= range.max {
                Some(
                    AccountView {
                        username: fields[0],
                        display_name: if fields[4].len() == 0 {
                            None
                        } else {
                            Some(fields[4])
                        },
                    },
                )
            } else {
                None
            },
            None => None,
        }
    } else {
        None
    }
}

/// Parses one line of the account database.  Returns exactly the
/// account `passwd_account` ascribes to the line, or nothing when the
/// line is rejected.
pub fn parse_passwd_line(line: &str, range: &UidRange) -> (r: Option<Account>)
    ensures
        match r {
            Some(a) => passwd_account(line@, *range) == Some(a@),
            None => passwd_account(line@, *range) is None,
        },
{
    let fields = split_str(line, ':');
    proof {
        assert(fields.deep_view().len() == fields@.len());
    }
    if fields.len() < 5 {
        return None;
    }
    proof {
        assert(fields.deep_view()[2] == fields@[2]@);
        assert(fields.deep_view()[0] == fields@[0]@);
        assert(fields.deep_view()[4] == fields@[4]@);
    }
    let uid = match parse_u16(fields[2].as_str()) {
        Some(u) => u,
        None => {
            return None;
        },
    };
    if uid < range.min || uid > range.max {
        return None;
    }
    let display_name = if fields[4].as_str().unicode_len() == 0 {
        None
    } else {
        Some(fields[4].clone())
    };
    Some(Account { username: fields[0].clone(), display_name })
}

/// The accounts contributed by a whole sequence of lines, in order.
pub open spec fn accounts_of(lines: Seq<Seq<char>>, range: UidRange) -> Seq<AccountView>
    decreases lines.len(),
{
    if lines.len() == 0 {
        Seq::empty()
    } else {
        accounts_of(lines.drop_last(), range) + match passwd_account(lines.last(), range) {
            Some(a) => seq![a],
            None => Seq::<AccountView>::empty(),
        }
    }
}

/// Scans the account database, given as its decoded lines, and returns
/// the selectable accounts in file order.  Rejected lines are skipped,
/// never an error.
pub fn get_users(lines: &Vec<String>, range: &UidRange) -> (r: Vec<Account>)
    ensures
        r.deep_view() == accounts_of(lines.deep_view(), *range),
{
    let mut out: Vec<Account> = Vec::new();
    let mut i: usize = 0;
    proof {
        assert(lines.deep_view().take(0) =~= Seq::<Seq<char>>::empty());
        assert(out.deep_view() =~= Seq::<AccountView>::empty());
    }
    while i < lines.len()
        invariant
            i <= lines.len(),
            out.deep_view() == accounts_of(lines.deep_view().take(i as int), *range),
        decreases lines.len() - i,
    {
        let ghost prefix = lines.deep_view().take(i as int);
        let ghost prefix1 = lines.deep_view().take(i + 1);
        proof {
            assert(prefix1.drop_last() =~= prefix);
            assert(prefix1.last() == lines.deep_view()[i as int]);
            assert(lines.deep_view()[i as int] == lines@[i as int]@);
        }
        match parse_passwd_line(lines[i].as_str(), range) {
            Some(a) => {
                let ghost old_out = out.deep_view();
                out.push(a);
                proof {
                    assert(out.deep_view() =~= old_out + seq![a@]);
                }
            },
            None => {
                proof {
                    assert(out.deep_view() + Seq::<AccountView>::empty() =~= out.deep_view());
                }
            },
        }
        i = i + 1;
    }
    proof {
        assert(lines.deep_view().take(lines@.len() as int) =~= lines.deep_view());
    }
    out
}

/// How one policy line changes the accumulated bounds: the first two
/// whitespace tokens are inspected; `UID_MIN` or `UID_MAX` followed by
/// a parsable value sets that bound, anything else leaves both alone.
pub open spec fn apply_uid_line(acc: UidRange, line: Seq<char>) -> UidRange {
    let toks = whitespace_tokens(line);
    if toks.len() >= 2 && toks[0] == "UID_MIN"@ {
        match parse_u16_spec(toks[1]) {
            Some(v) => UidRange { min: v, max: acc.max },
            None => acc,
        }
    } else if toks.len() >= 2 && toks[0] == "UID_MAX"@ {
        match parse_u16_spec(toks[1]) {
            Some(v) => UidRange { min: acc.min, max: v },
            None => acc,
        }
    } else {
        acc
    }
}

pub open spec fn uid_bounds_from(acc: UidRange, lines: Seq<Seq<char>>) -> UidRange
    decreases lines.len(),
{
    if lines.len() == 0 {
        acc
    } else {
        uid_bounds_from(apply_uid_line(acc, lines[0]), lines.skip(1))
    }
}

/// The bounds that a whole policy file yields, starting from the
/// defaults.
pub open spec fn uid_bounds(lines: Seq<Seq<char>>) -> UidRange {
    uid_bounds_from(UidRange { min: 1000u16, max: 60000u16 }, lines)
}

/// Reads the UID policy, given as the policy file's lines, and returns
/// the resulting bounds.  Unrecognized lines and unparsable values
/// leave the accumulated bounds unchanged; with no lines at all the
/// defaults come back.
pub fn get_min_max_uids(lines: &Vec<String>) -> (r: UidRange)
    ensures
        r == uid_bounds(lines.deep_view()),
{
    let mut acc = UidRange { min: 1000, max: 60000 };
    let mut i: usize = 0;
    proof {
        assert(lines.deep_view().skip(0) =~= lines.deep_view());
    }
    while i < lines.len()
        invariant
            i <= lines.len(),
            uid_bounds_from(acc, lines.deep_view().skip(i as int)) == uid_bounds(
                lines.deep_view(),
            ),
        decreases lines.len() - i,
    {
        let ghost rest = lines.deep_view().skip(i as int);
        proof {
            assert(rest[0] == lines.deep_view()[i as int]);
            assert(lines.deep_view()[i as int] == lines@[i as int]@);
            assert(rest.skip(1) =~= lines.deep_view().skip(i + 1));
        }
        let toks = split_whitespace_str(lines[i].as_str());
        proof {
            assert(toks.deep_view().len() == toks@.len());
        }
        if toks.len() >= 2 {
            proof {
                assert(toks.deep_view()[0] == toks@[0]@);
                assert(toks.deep_view()[1] == toks@[1]@);
            }
            if str_eq(toks[0].as_str(), "UID_MIN") {
                if let Some(v) = parse_u16(toks[1].as_str()) {
                    acc = UidRange { min: v, max: acc.max };
                }
            } else if str_eq(toks[0].as_str(), "UID_MAX") {
                if let Some(v) = parse_u16(toks[1].as_str()) {
                    acc = UidRange { min: acc.min, max: v };
                }
            }
        }
        i = i + 1;
    }
    proof {
        assert(lines.deep_view().skip(lines@.len() as int) =~= Seq::<Seq<char>>::empty());
    }
    acc
}

/// A policy line that sets neither bound: too few tokens, an
/// unrecognized key, or an unparsable value.
pub open spec fn sets_no_bound(line: Seq<char>) -> bool {
    let toks = whitespace_tokens(line);
    !(toks.len() >= 2 && (toks[0] == "UID_MIN"@ || toks[0] == "UID_MAX"@)
        && parse_u16_spec(toks[1]) is Some)
}

/// A successfully parsed bound is never regressed by a later line that
/// fails to parse: appending such a line leaves the result unchanged.
pub proof fn lemma_unparsable_line_preserves_bounds(lines: Seq<Seq<char>>, bad: Seq<char>)
    requires
        sets_no_bound(bad),
    ensures
        uid_bounds(lines.push(bad)) == uid_bounds(lines),
{
    lemma_uid_bounds_from_push(UidRange { min: 1000u16, max: 60000u16 }, lines, bad);
}

proof fn lemma_uid_bounds_from_push(acc: UidRange, lines: Seq<Seq<char>>, bad: Seq<char>)
    requires
        sets_no_bound(bad),
    ensures
        uid_bounds_from(acc, lines.push(bad)) == uid_bounds_from(acc, lines),
    decreases lines.len(),
{
    if lines.len() == 0 {
        assert(lines.push(bad)[0] == bad);
        assert(lines.push(bad).skip(1) =~= Seq::<Seq<char>>::empty());
        assert(apply_uid_line(acc, bad) == acc);
        assert(uid_bounds_from(acc, Seq::<Seq<char>>::empty()) == acc);
    } else {
        assert(lines.push(bad)[0] == lines[0]);
        assert(lines.push(bad).skip(1) =~= lines.skip(1).push(bad));
        lemma_uid_bounds_from_push(apply_uid_line(acc, lines[0]), lines.skip(1), bad);
    }
}

} // verus!
