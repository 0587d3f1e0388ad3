//! The branch-naming convention.
//!
//! A branch is either special (`develop`, `main`, `master`) or typed: a
//! type, a slash, a code, an underscore and a title, as in
//! `feature/1234_login-page`.  Teams that number their work items in a
//! tracker write the tracker's key in front of the code,
//! `feature/RCT-1234_login-page`; which of the two forms is in force is
//! chosen once, by a [`Convention`], and never guessed from a name.

use crate::commit_types::CommitType;
use crate::errors::{Error, ErrorView};
use crate::text::{
    all_digits, chars_of, first_index, is_digit, lemma_first_index_is, only_digits, same_text,
    trim, trimmed,
};
use vstd::prelude::*;
use vstd::string::{StrSliceExecFns, StringExecFns};

verus! {

/// The branch types that a typed name may start with.
pub const VALID_TYPES: [&'static str; 2] = ["feature", "hotfix"];

/// The names that are valid as they stand.
pub const SPECIAL_NAMES: [&'static str; 3] = ["develop", "main", "master"];

/// The token that asks the build server for a full run.
pub const RUN_CI: &'static str = "(run_ci)";

/// How the code of a work item is written in names and messages.
#[derive(Debug, Clone, Copy, PartialEq, Eq)]
pub enum Convention {
    /// The code stands alone in a name (`feature/1234_title`) and after a
    /// hash sign in a message (`feat(#1234): ...`).
    Plain,
    /// The code follows the tracker key in both (`feature/RCT-1234_title`,
    /// `feat(RCT-1234): ...`).
    Ticket,
}

impl Convention {
    /// What a name holds between the slash and the digits of the code.
    pub open spec fn code_prefix(self) -> Seq<char> {
        match self {
            Convention::Plain => ""@,
            Convention::Ticket => "RCT-"@,
        }
    }

    /// What a commit message holds in front of the digits of the code.
    pub open spec fn code_mark(self) -> Seq<char> {
        match self {
            Convention::Plain => "#"@,
            Convention::Ticket => "RCT-"@,
        }
    }

    /// What a name holds between the slash and the digits of the code.
    pub fn prefix(self) -> (p: &'static str)
        ensures
            p@ == self.code_prefix(),
    {
        match self {
            Convention::Plain => "",
            Convention::Ticket => "RCT-",
        }
    }

    /// What a commit message holds in front of the digits of the code.
    pub fn mark(self) -> (m: &'static str)
        ensures
            m@ == self.code_mark(),
    {
        match self {
            Convention::Plain => "#",
            Convention::Ticket => "RCT-",
        }
    }
}

/// What a branch name is made of.
pub struct Parts {
    pub branch_type: Seq<char>,
    pub code: Seq<char>,
    pub title: Seq<char>,
    pub is_special: bool,
}

impl Parts {
    /// What holds of the parts of every branch.  A special branch has no
    /// type and no code, and a special name for its title.  Any other
    /// branch has a branch type, a code of one digit or more, and a title
    /// that is not empty.
    pub open spec fn well_formed(self) -> bool {
        if self.is_special {
            self.branch_type.len() == 0 && self.code.len() == 0 && is_special_name(self.title)
        } else {
            is_valid_type(self.branch_type) && is_code(self.code) && self.title.len() > 0
        }
    }
}

/// `name` is one of the special names.
pub open spec fn is_special_name(name: Seq<char>) -> bool {
    name == "develop"@ || name == "main"@ || name == "master"@
}

/// `t` is one of the branch types.
pub open spec fn is_valid_type(t: Seq<char>) -> bool {
    t == "feature"@ || t == "hotfix"@
}

/// `code` is a code as it stands in a name: one ASCII digit or more.
pub open spec fn is_code(code: Seq<char>) -> bool {
    code.len() > 0 && all_digits(code)
}

/// The name written from a type, the convention's prefix, a code and a
/// title.
pub open spec fn composed(
    branch_type: Seq<char>,
    prefix: Seq<char>,
    code: Seq<char>,
    title: Seq<char>,
) -> Seq<char> {
    branch_type + seq!['/'] + prefix + code + seq!['_'] + title
}

/// `name` is a typed name: a branch type, a slash, the prefix, a code, an
/// underscore and a title that is not empty.
pub open spec fn is_typed_name(name: Seq<char>, convention: Convention) -> bool {
    exists|branch_type: Seq<char>, code: Seq<char>, title: Seq<char>|
        #[trigger] composed(branch_type, convention.code_prefix(), code, title) == name
            && is_valid_type(branch_type) && is_code(code) && title.len() > 0
}

/// `name` follows the convention.
pub open spec fn is_valid_name(name: Seq<char>, convention: Convention) -> bool {
    is_special_name(name) || is_typed_name(name, convention)
}

/// The parts that a valid name is read as.  A special name is its own title
/// and has neither type nor code.  Of any other name, the type is what
/// stands before the first slash, the title what follows the first
/// underscore, and the code what lies between the prefix and that
/// underscore.
pub open spec fn parts_of(name: Seq<char>, convention: Convention) -> Parts {
    if is_special_name(name) {
        Parts { branch_type: Seq::empty(), code: Seq::empty(), title: name, is_special: true }
    } else {
        let slash = first_index(name, '/');
        let underscore = first_index(name, '_');
        Parts {
            branch_type: name.take(slash),
            code: name.subrange(slash + 1 + convention.code_prefix().len(), underscore),
            title: name.skip(underscore + 1),
            is_special: false,
        }
    }
}

/// What parsing a name gives: its parts if the name is valid, nothing if it
/// is not.
pub open spec fn parsed(name: Seq<char>, convention: Convention) -> Option<Parts> {
    if is_valid_name(name, convention) {
        Some(parts_of(name, convention))
    } else {
        None
    }
}

/// What writing a raw name from its parts gives.  A special name with no
/// type and no code stays as it is.  Otherwise the code has to be made of
/// digits and the type has to be a branch type, in that order of checking.
pub open spec fn raw_name_of(
    branch_type: Seq<char>,
    code: Seq<char>,
    title: Seq<char>,
    convention: Convention,
) -> Result<Seq<char>, ErrorView> {
    if is_special_name(title) && code.len() == 0 && branch_type.len() == 0 {
        Ok(title)
    } else if !all_digits(code) {
        Err(ErrorView::BranchCode)
    } else if !is_valid_type(branch_type) {
        Err(ErrorView::InvalidBranchType(branch_type))
    } else {
        Ok(composed(branch_type, convention.code_prefix(), code, title))
    }
}

/// The commit message for a branch with the given code: the commit type,
/// the marked code in brackets unless the branch is special, a colon, the
/// message without the white space around it, and the token that asks for a
/// full build if one is wanted.
pub open spec fn commit_message_of(
    code: Seq<char>,
    is_special: bool,
    commit_type: CommitType,
    message: Seq<char>,
    run_ci: bool,
    convention: Convention,
) -> Seq<char> {
    let reference = if is_special {
        Seq::empty()
    } else {
        "("@ + convention.code_mark() + code + ")"@
    };
    let trailer = if run_ci {
        " "@ + "(run_ci)"@
    } else {
        Seq::empty()
    };
    commit_type.label() + reference + ": "@ + trimmed(message) + trailer
}

/// `name` starts with `head`, goes on with digits up to an underscore at
/// index `underscore`, and does not end there.
pub open spec fn shaped(name: Seq<char>, head: Seq<char>, underscore: int) -> bool {
    &&& head.is_prefix_of(name)
    &&& head.len() < underscore < name.len() - 1
    &&& forall|j: int| head.len() <= j < underscore ==> is_digit(#[trigger] name[j])
    &&& name[underscore] == '_'
}

/// `name` is not shaped with `head`, wherever the underscore is looked for.
spec fn unshaped(name: Seq<char>, head: Seq<char>) -> bool {
    forall|u: int| !shaped(name, head, u)
}

/// The characters of the names and prefixes that the convention is made of.
proof fn lemma_words()
    ensures
        "develop"@ == seq!['d', 'e', 'v', 'e', 'l', 'o', 'p'],
        "main"@ == seq!['m', 'a', 'i', 'n'],
        "master"@ == seq!['m', 'a', 's', 't', 'e', 'r'],
        "feature"@ == seq!['f', 'e', 'a', 't', 'u', 'r', 'e'],
        "hotfix"@ == seq!['h', 'o', 't', 'f', 'i', 'x'],
        "RCT-"@ == seq!['R', 'C', 'T', '-'],
        ""@ == Seq::<char>::empty(),
{
    reveal_strlit("develop");
    reveal_strlit("main");
    reveal_strlit("master");
    reveal_strlit("feature");
    reveal_strlit("hotfix");
    reveal_strlit("RCT-");
    reveal_strlit("");
    assert("develop"@ =~= seq!['d', 'e', 'v', 'e', 'l', 'o', 'p']);
    assert("main"@ =~= seq!['m', 'a', 'i', 'n']);
    assert("master"@ =~= seq!['m', 'a', 's', 't', 'e', 'r']);
    assert("feature"@ =~= seq!['f', 'e', 'a', 't', 'u', 'r', 'e']);
    assert("hotfix"@ =~= seq!['h', 'o', 't', 'f', 'i', 'x']);
    assert("RCT-"@ =~= seq!['R', 'C', 'T', '-']);
    assert(""@ =~= Seq::<char>::empty());
}

/// A shaped name is the composition of its pieces.
proof fn lemma_shaped_is_composed(
    name: Seq<char>,
    branch_type: Seq<char>,
    prefix: Seq<char>,
    underscore: int,
)
    requires
        shaped(name, branch_type + seq!['/'] + prefix, underscore),
    ensures
        ({
            let start = (branch_type.len() + 1 + prefix.len()) as int;
            &&& is_code(name.subrange(start, underscore))
            &&& name.skip(underscore + 1).len() > 0
            &&& name == composed(
                branch_type,
                prefix,
                name.subrange(start, underscore),
                name.skip(underscore + 1),
            )
        }),
{
    let head = branch_type + seq!['/'] + prefix;
    let start = (branch_type.len() + 1 + prefix.len()) as int;
    let code = name.subrange(start, underscore);
    let title = name.skip(underscore + 1);
    assert(head.len() == start);
    assert(head =~= name.subrange(0, start));
    assert forall|i: int| 0 <= i < code.len() implies is_digit(#[trigger] code[i]) by {
        assert(code[i] == name[start + i]);
    }
    assert(name =~= composed(branch_type, prefix, code, title));
}

/// A composition of fitting pieces is shaped, with its underscore right
/// after the code.
proof fn lemma_composed_is_shaped(
    branch_type: Seq<char>,
    prefix: Seq<char>,
    code: Seq<char>,
    title: Seq<char>,
)
    requires
        is_code(code),
        title.len() > 0,
    ensures
        shaped(
            composed(branch_type, prefix, code, title),
            branch_type + seq!['/'] + prefix,
            (branch_type.len() + 1 + prefix.len() + code.len()) as int,
        ),
{
    let name = composed(branch_type, prefix, code, title);
    let head = branch_type + seq!['/'] + prefix;
    let start = (branch_type.len() + 1 + prefix.len()) as int;
    assert(head =~= name.subrange(0, start));
    assert forall|j: int| start <= j < start + code.len() implies is_digit(#[trigger] name[j]) by {
        assert(name[j] == code[j - start]);
    }
}

/// In a typed name the first slash ends the type and the first underscore
/// ends the code.
proof fn lemma_separators(
    branch_type: Seq<char>,
    convention: Convention,
    code: Seq<char>,
    title: Seq<char>,
)
    requires
        is_valid_type(branch_type),
        is_code(code),
    ensures
        ({
            let name = composed(branch_type, convention.code_prefix(), code, title);
            &&& first_index(name, '/') == branch_type.len()
            &&& first_index(name, '_') == branch_type.len() + 1
                + convention.code_prefix().len() + code.len()
            &&& !is_special_name(name)
        }),
{
    lemma_words();
    let prefix = convention.code_prefix();
    let name = composed(branch_type, prefix, code, title);
    let start = (branch_type.len() + 1 + prefix.len()) as int;
    assert forall|j: int| 0 <= j < branch_type.len() implies name[j] != '/' && name[j] != '_' by {
        assert(name[j] == branch_type[j]);
    }
    assert(name[branch_type.len() as int] == '/');
    assert forall|j: int| branch_type.len() < j < start implies name[j] != '_' by {
        assert(name[j] == prefix[j - branch_type.len() - 1]);
    }
    assert forall|j: int| start <= j < start + code.len() implies name[j] != '_' by {
        assert(name[j] == code[j - start]);
        assert(is_digit(code[j - start]));
    }
    assert(name[start + code.len()] == '_');
    lemma_first_index_is(name, '/', branch_type.len() as int);
    lemma_first_index_is(name, '_', start + code.len());
    if is_special_name(name) {
        assert(name[branch_type.len() as int] == '/');
    }
}

/// **A typed name by its shape.**  A name is a typed name exactly if it
/// starts with a branch type, a slash and the prefix, goes on with one digit
/// or more up to an underscore, and does not end with that underscore.
pub proof fn lemma_typed_name_shape(name: Seq<char>, convention: Convention)
    ensures
        is_typed_name(name, convention) <==> exists|branch_type: Seq<char>, underscore: int|
            is_valid_type(branch_type) && #[trigger] shaped(
                name,
                branch_type + seq!['/'] + convention.code_prefix(),
                underscore,
            ),
{
    let prefix = convention.code_prefix();
    if is_typed_name(name, convention) {
        let (branch_type, code, title) = choose|
            branch_type: Seq<char>,
            code: Seq<char>,
            title: Seq<char>,
        |
            #[trigger] composed(branch_type, prefix, code, title) == name && is_valid_type(
                branch_type,
            ) && is_code(code) && title.len() > 0;
        lemma_composed_is_shaped(branch_type, prefix, code, title);
    }
    if exists|branch_type: Seq<char>, underscore: int|
        is_valid_type(branch_type) && #[trigger] shaped(
            name,
            branch_type + seq!['/'] + prefix,
            underscore,
        ) {
        let (branch_type, underscore) = choose|branch_type: Seq<char>, underscore: int|
            is_valid_type(branch_type) && #[trigger] shaped(
                name,
                branch_type + seq!['/'] + prefix,
                underscore,
            );
        lemma_shaped_is_composed(name, branch_type, prefix, underscore);
    }
}

/// **Special names.**  Each special name is valid under either convention,
/// and is read as a special branch without type and code whose title is the
/// name itself.
pub proof fn lemma_special_names(name: Seq<char>, convention: Convention)
    requires
        is_special_name(name),
    ensures
        is_valid_name(name, convention),
        parsed(name, convention) == Some(
            Parts { branch_type: Seq::empty(), code: Seq::empty(), title: name, is_special: true },
        ),
{
}

/// **A typed name has one reading.**  Whatever valid type, code and title a
/// name is composed of, those are the parts it is read as.
pub proof fn lemma_typed_name_parts(
    branch_type: Seq<char>,
    code: Seq<char>,
    title: Seq<char>,
    convention: Convention,
)
    requires
        is_valid_type(branch_type),
        is_code(code),
        title.len() > 0,
    ensures
        parsed(composed(branch_type, convention.code_prefix(), code, title), convention) == Some(
            Parts { branch_type, code, title, is_special: false },
        ),
{
    let prefix = convention.code_prefix();
    let name = composed(branch_type, prefix, code, title);
    lemma_separators(branch_type, convention, code, title);
    let parts = parts_of(name, convention);
    let start = (branch_type.len() + 1 + prefix.len()) as int;
    assert(parts.branch_type =~= branch_type);
    assert(parts.code =~= code);
    assert(parts.title =~= title);
}

/// **Round trip.**  A raw name written from a valid type, a code of one
/// digit or more and a title that is not empty is read back as exactly that
/// type, code and title, and as not special.  The title may hold any
/// character, slashes and underscores included.
pub proof fn lemma_round_trip(
    branch_type: Seq<char>,
    code: Seq<char>,
    title: Seq<char>,
    convention: Convention,
)
    requires
        is_valid_type(branch_type),
        is_code(code),
        title.len() > 0,
    ensures
        raw_name_of(branch_type, code, title, convention) is Ok,
        parsed(raw_name_of(branch_type, code, title, convention)->Ok_0, convention) == Some(
            Parts { branch_type, code, title, is_special: false },
        ),
{
    lemma_words();
    lemma_typed_name_parts(branch_type, code, title, convention);
}

/// **The parts of a valid name are valid.**  A name that is read as not
/// special has a branch type for its type, a code of one digit or more, a
/// title that is not empty, and is the composition of the three.
pub proof fn lemma_parts_valid(name: Seq<char>, convention: Convention)
    requires
        is_valid_name(name, convention),
        !is_special_name(name),
    ensures
        ({
            let parts = parts_of(name, convention);
            &&& is_valid_type(parts.branch_type)
            &&& is_code(parts.code)
            &&& parts.title.len() > 0
            &&& !parts.is_special
            &&& name == composed(
                parts.branch_type,
                convention.code_prefix(),
                parts.code,
                parts.title,
            )
        }),
{
    let (branch_type, code, title) = choose|
        branch_type: Seq<char>,
        code: Seq<char>,
        title: Seq<char>,
    |
        #[trigger] composed(branch_type, convention.code_prefix(), code, title) == name
            && is_valid_type(branch_type) && is_code(code) && title.len() > 0;
    lemma_typed_name_parts(branch_type, code, title, convention);
}

/// **Parsing gives well-formed parts.**  Whatever a name is read as
/// satisfies [`Parts::well_formed`].
pub proof fn lemma_parsed_well_formed(name: Seq<char>, convention: Convention)
    requires
        parsed(name, convention) is Some,
    ensures
        parsed(name, convention)->Some_0.well_formed(),
{
    if !is_special_name(name) {
        lemma_parts_valid(name, convention);
    }
}

/// Whether `name` is one of the special names.
pub fn is_special(name: &str) -> (b: bool)
    ensures
        b == is_special_name(name@),
{
    let mut i: usize = 0;
    while i < SPECIAL_NAMES.len()
        invariant
            i <= 3,
            forall|k: int| 0 <= k < i ==> name@ != (#[trigger] SPECIAL_NAMES[k])@,
        decreases 3 - i,
    {
        if same_text(name, SPECIAL_NAMES[i]) {
            return true;
        }
        i += 1;
    }
    assert(name@ != SPECIAL_NAMES[0]@ && name@ != SPECIAL_NAMES[1]@ && name@ != SPECIAL_NAMES[2]@);
    false
}

/// Whether `branch_type` is one of the branch types.
pub fn is_branch_type(branch_type: &str) -> (b: bool)
    ensures
        b == is_valid_type(branch_type@),
{
    let mut i: usize = 0;
    while i < VALID_TYPES.len()
        invariant
            i <= 2,
            forall|k: int| 0 <= k < i ==> branch_type@ != (#[trigger] VALID_TYPES[k])@,
        decreases 2 - i,
    {
        if same_text(branch_type, VALID_TYPES[i]) {
            return true;
        }
        i += 1;
    }
    assert(branch_type@ != VALID_TYPES[0]@ && branch_type@ != VALID_TYPES[1]@);
    false
}

/// What a typed name of the given type starts with.
fn head_of(branch_type: &str, convention: Convention) -> (head: Vec<char>)
    ensures
        head@ == branch_type@ + seq!['/'] + convention.code_prefix(),
{
    let mut head = chars_of(branch_type);
    head.push('/');
    let mut prefix = chars_of(convention.prefix());
    head.append(&mut prefix);
    head
}

/// Looks for the underscore that ends the code of a name starting with
/// `head`.
fn scan_code(cs: &Vec<char>, head: &Vec<char>) -> (r: Option<usize>)
    ensures
        match r {
            Some(underscore) => shaped(cs@, head@, underscore as int),
            None => forall|u: int| !shaped(cs@, head@, u),
        },
{
    if head.len() > cs.len() {
        return None;
    }
    let mut k: usize = 0;
    while k < head.len()
        invariant
            head.len() <= cs.len(),
            k <= head.len(),
            forall|j: int| 0 <= j < k ==> cs@[j] == head@[j],
        decreases head.len() - k,
    {
        if cs[k] != head[k] {
            assert(cs@.subrange(0, head.len() as int)[k as int] != head@[k as int]);
            return None;
        }
        k += 1;
    }
    assert(head@ =~= cs@.subrange(0, head.len() as int));
    let mut i: usize = head.len();
    while i < cs.len() && cs[i] >= '0' && cs[i] <= '9'
        invariant
            head.len() <= i <= cs.len(),
            forall|j: int| head.len() <= j < i ==> is_digit(#[trigger] cs@[j]),
        decreases cs.len() - i,
    {
        i += 1;
    }
    if i > head.len() && i < cs.len() - 1 && cs[i] == '_' {
        Some(i)
    } else {
        assert forall|u: int| !shaped(cs@, head@, u) by {
            if shaped(cs@, head@, u) {
                if u < i {
                    assert(is_digit(cs@[u]));
                } else if u > i {
                    assert(is_digit(cs@[i as int]));
                }
            }
        }
        None
    }
}

/// Where the parts of a typed name lie: the length of its type, the index
/// at which its code starts, and the index of the underscore that ends the
/// code.
fn locate(cs: &Vec<char>, convention: Convention) -> (r: Option<(usize, usize, usize)>)
    ensures
        match r {
            Some((type_len, start, underscore)) => {
                &&& is_typed_name(cs@, convention)
                &&& type_len < start < underscore < cs@.len() - 1
                &&& type_len == first_index(cs@, '/')
                &&& start == type_len + 1 + convention.code_prefix().len()
                &&& underscore == first_index(cs@, '_')
            },
            None => !is_typed_name(cs@, convention),
        },
{
    let ghost prefix = convention.code_prefix();
    let mut i: usize = 0;
    while i < VALID_TYPES.len()
        invariant
            i <= 2,
            prefix == convention.code_prefix(),
            i >= 1 ==> unshaped(cs@, "feature"@ + seq!['/'] + prefix),
            i >= 2 ==> unshaped(cs@, "hotfix"@ + seq!['/'] + prefix),
        decreases 2 - i,
    {
        let branch_type = VALID_TYPES[i];
        let head = head_of(branch_type, convention);
        match scan_code(cs, &head) {
            Some(underscore) => {
                let type_len = head.len() - 1 - chars_of(convention.prefix()).len();
                proof {
                    lemma_shaped_is_composed(cs@, branch_type@, prefix, underscore as int);
                    let code = cs@.subrange(head.len() as int, underscore as int);
                    let title = cs@.skip(underscore + 1);
                    assert(is_valid_type(branch_type@));
                    lemma_separators(branch_type@, convention, code, title);
                }
                return Some((type_len, head.len(), underscore));
            },
            None => {},
        }
        i += 1;
    }
    proof {
        if is_typed_name(cs@, convention) {
            let (branch_type, code, title) = choose|
                branch_type: Seq<char>,
                code: Seq<char>,
                title: Seq<char>,
            |
                #[trigger] composed(branch_type, prefix, code, title) == cs@ && is_valid_type(
                    branch_type,
                ) && is_code(code) && title.len() > 0;
            lemma_composed_is_shaped(branch_type, prefix, code, title);
        }
    }
    None
}

/// Whether `name` follows the convention: it is a special name, or a
/// branch type, a slash, the convention's prefix, one digit or more, an
/// underscore and a title that is not empty.
pub fn validate(name: &str, convention: Convention) -> (valid: bool)
    ensures
        valid == is_valid_name(name@, convention),
{
    if is_special(name) {
        return true;
    }
    let cs = chars_of(name);
    locate(&cs, convention).is_some()
}

/// Reads a name as its type, its code, its title and whether it is special.
/// A name that does not follow the convention is refused with
/// [`Error::NameFormat`].
pub fn parse(name: &str, convention: Convention) -> (r: Result<
    (String, String, String, bool),
    Error,
>)
    ensures
        match r {
            Ok((branch_type, code, title, is_special)) => parsed(name@, convention) == Some(
                Parts { branch_type: branch_type@, code: code@, title: title@, is_special },
            ),
            Err(e) => parsed(name@, convention) is None && e@ == ErrorView::NameFormat,
        },
{
    if is_special(name) {
        return Ok((String::new(), String::new(), String::from_str(name), true));
    }
    let cs = chars_of(name);
    match locate(&cs, convention) {
        Some((type_len, start, underscore)) => {
            let len = cs.len();
            let branch_type = String::from_str(name.substring_char(0, type_len));
            let code = String::from_str(name.substring_char(start, underscore));
            let title = String::from_str(name.substring_char(underscore + 1, len));
            assert(name@.subrange(0, type_len as int) =~= name@.take(type_len as int));
            assert(name@.subrange(underscore + 1, name@.len() as int) =~= name@.skip(
                underscore + 1,
            ));
            Ok((branch_type, code, title, false))
        },
        None => Err(Error::NameFormat),
    }
}

/// Writes the raw name of a branch from its type, code and title.
///
/// A special name given with an empty type and an empty code comes back
/// unchanged.  Otherwise a code that holds anything but ASCII digits is
/// refused with [`Error::BranchCode`], then a type that is not a branch
/// type with [`Error::InvalidBranchType`], and the name is the type, a
/// slash, the convention's prefix, the code, an underscore and the title.
pub fn make_raw_name(
    branch_type: &str,
    branch_code: &str,
    branch_name: &str,
    convention: Convention,
) -> (r: Result<String, Error>)
    ensures
        match r {
            Ok(raw_name) => raw_name_of(branch_type@, branch_code@, branch_name@, convention)
                == Ok::<Seq<char>, ErrorView>(raw_name@),
            Err(e) => raw_name_of(branch_type@, branch_code@, branch_name@, convention)
                == Err::<Seq<char>, ErrorView>(e@),
        },
{
    if is_special(branch_name) && branch_code.is_empty() && branch_type.is_empty() {
        return Ok(String::from_str(branch_name));
    }
    if !only_digits(branch_code) {
        return Err(Error::BranchCode);
    }
    if !is_branch_type(branch_type) {
        return Err(Error::InvalidBranchType(String::from_str(branch_type)));
    }
    let mut raw_name = String::from_str(branch_type);
    raw_name.append("/");
    raw_name.append(convention.prefix());
    raw_name.append(branch_code);
    raw_name.append("_");
    raw_name.append(branch_name);
    proof {
        reveal_strlit("/");
        reveal_strlit("_");
        assert("/"@ =~= seq!['/']);
        assert("_"@ =~= seq!['_']);
    }
    Ok(raw_name)
}

/// Writes the commit message for a branch with the given code.
///
/// The message starts with the commit type; for a branch that is not
/// special the code follows in brackets, behind the convention's mark; then
/// come a colon, a space and the message without the white space around it.
/// With `run_ci` the message ends with a space and [`RUN_CI`].
pub fn commit_message(
    code: &str,
    is_special: bool,
    commit_type: CommitType,
    message: &str,
    run_ci: bool,
    convention: Convention,
) -> (text: String)
    ensures
        text@ == commit_message_of(code@, is_special, commit_type, message@, run_ci, convention),
{
    let mut text = String::from_str(commit_type.as_str());
    if !is_special {
        text.append("(");
        text.append(convention.mark());
        text.append(code);
        text.append(")");
    }
    text.append(": ");
    text.append(trim(message));
    if run_ci {
        text.append(" ");
        text.append(RUN_CI);
    }
    proof {
        let label = commit_type.label();
        let body = trimmed(message@);
        if is_special {
            assert(label + Seq::<char>::empty() =~= label);
        } else {
            assert(label + "("@ + convention.code_mark() + code@ + ")"@ =~= label + ("("@
                + convention.code_mark() + code@ + ")"@));
        }
        let front = if is_special {
            label + ": "@ + body
        } else {
            label + "("@ + convention.code_mark() + code@ + ")"@ + ": "@ + body
        };
        if run_ci {
            assert(front + " "@ + "(run_ci)"@ =~= front + (" "@ + "(run_ci)"@));
        } else {
            assert(front + Seq::<char>::empty() =~= front);
        }
    }
    text
}

} // verus!
