//! Creating a project: what a project may be called, the command that
//! creates it, where its files lie and how its templates are filled in.

use vstd::prelude::*;
use crate::text::{
    chars_of, replace_all, replaced, occurs_at, lemma_replace_absent, lemma_replace_plain,
    lemma_replace_leading, lemma_replace_after_plain_prefix,
};

verus! {

broadcast use vstd::string::group_string_axioms;

/// What `char::is_alphanumeric` returns for `c`: whether `c` has the Unicode
/// `Alphabetic` property or a numeric general category.
pub uninterp spec fn char_is_alphanumeric(c: char) -> bool;

/// `char::is_alphanumeric` from std. Its result is only named: the Unicode
/// tables that decide it are not written out here.
#[verifier::external_body]
fn is_alphanumeric(c: char) -> (r: bool)
    ensures
        r == char_is_alphanumeric(c),
{
    c.is_alphanumeric()
}

/// A character that may appear in a project name: a letter or digit, `_` or `-`.
pub open spec fn is_name_char(c: char) -> bool {
    char_is_alphanumeric(c) || c == '_' || c == '-'
}

/// Every character of `name` may appear in a project name.
pub open spec fn is_valid_name(name: Seq<char>) -> bool {
    forall|i: int| 0 <= i < name.len() ==> is_name_char(#[trigger] name[i])
}

/// A name is accepted exactly when each of its characters is alphanumeric
/// (as `char::is_alphanumeric` decides), `_` or `-`.
pub proof fn lemma_valid_name_characters(name: Seq<char>)
    ensures
        is_valid_name(name) <==> forall|i: int|
            0 <= i < name.len() ==> char_is_alphanumeric(#[trigger] name[i]) || name[i] == '_'
                || name[i] == '-',
{
}

/// A name that holds a character which is neither alphanumeric nor `_` nor
/// `-` is refused; names made of such characters are accepted.
pub proof fn lemma_name_char_exact(c: char)
    ensures
        is_name_char(c) ==> char_is_alphanumeric(c) || c == '_' || c == '-',
        c == '_' || c == '-' ==> is_name_char(c),
        char_is_alphanumeric(c) ==> is_name_char(c),
{
}

/// Why a project name is refused.
#[derive(PartialEq, Eq, Structural, Clone, Copy, Debug)]
pub enum NameError {
    /// The name holds a character other than a letter, a digit, `_` or `-`.
    InvalidCharacters,
    /// A file or directory of that name exists already.
    AlreadyExists,
}

impl NameError {
    /// The message shown to the user.
    pub fn message(self) -> (r: &'static str)
        ensures
            self == NameError::InvalidCharacters ==> r@
                == "Invalid project name, only letters, numbers, underscores and dashes are allowed."@,
            self == NameError::AlreadyExists ==> r@ == "Project already exists."@,
    {
        match self {
            NameError::InvalidCharacters => "Invalid project name, only letters, numbers, underscores and dashes are allowed.",
            NameError::AlreadyExists => "Project already exists.",
        }
    }
}

/// Whether every character of `name` may appear in a project name.
pub fn is_valid_project_name(name: &str) -> (r: bool)
    ensures
        r == is_valid_name(name@),
{
    let cs = chars_of(name);
    let mut i: usize = 0;
    while i < cs.len()
        invariant
            cs@ == name@,
            i <= cs@.len(),
            forall|k: int| 0 <= k < i ==> is_name_char(#[trigger] cs@[k]),
        decreases cs.len() - i,
    {
        let c = cs[i];
        if !(is_alphanumeric(c) || c == '_' || c == '-') {
            assert(!is_name_char(cs@[i as int]));
            return false;
        }
        i = i + 1;
    }
    true
}

/// Checks a proposed project name; `exists` tells whether a file or directory
/// of that name is already there. Bad characters are reported first.
pub fn validate_project_name(name: &str, exists: bool) -> (r: Result<(), NameError>)
    ensures
        r == Err::<(), NameError>(NameError::InvalidCharacters) <==> !is_valid_name(name@),
        r == Err::<(), NameError>(NameError::AlreadyExists) <==> is_valid_name(name@) && exists,
        r is Ok <==> is_valid_name(name@) && !exists,
{
    if !is_valid_project_name(name) {
        Err(NameError::InvalidCharacters)
    } else if exists {
        Err(NameError::AlreadyExists)
    } else {
        Ok(())
    }
}

/// The arguments of the `moon` command that creates a project called `name`
/// for the user `user`.
pub fn moon_new_args(name: &str, user: &str) -> (r: Vec<String>)
    ensures
        r.deep_view() == seq!["new"@, "--name"@, name@, "--path"@, name@, "--user"@, user@],
{
    let mut r: Vec<String> = Vec::new();
    r.push("new".to_string());
    r.push("--name".to_string());
    r.push(name.to_string());
    r.push("--path".to_string());
    r.push(name.to_string());
    r.push("--user".to_string());
    r.push(user.to_string());
    assert(r.deep_view() =~= seq!["new"@, "--name"@, name@, "--path"@, name@, "--user"@, user@]);
    r
}

/// The path of `rel` inside the project directory `project`.
pub fn project_path(project: &str, rel: &str) -> (r: String)
    ensures
        r@ == project@ + seq!['/'] + rel@,
{
    let mut r = project.to_string();
    let slash = "/";
    proof {
        reveal_strlit("/");
    }
    r.append(slash);
    r.append(rel);
    assert(slash@ =~= seq!['/']);
    r
}

/// `{{name}}`, the placeholder for the project's name in template files.
pub open spec fn name_tag() -> Seq<char> {
    seq!['{', '{', 'n', 'a', 'm', 'e', '}', '}']
}

/// `{{author}}`, the placeholder for the author's name in template files.
pub open spec fn author_tag() -> Seq<char> {
    seq!['{', '{', 'a', 'u', 't', 'h', 'o', 'r', '}', '}']
}

/// A template with its placeholders filled in: every `{{name}}` becomes the
/// project's name, then every `{{author}}` in the result becomes the author.
pub open spec fn filled(content: Seq<char>, name: Seq<char>, author: Seq<char>) -> Seq<char> {
    replaced(replaced(content, name_tag(), name), author_tag(), author)
}

/// Fills in the placeholders of a template file's content.
pub fn fill_template(content: &str, project_name: &str, author: &str) -> (r: String)
    ensures
        r@ == filled(content@, project_name@, author@),
{
    let name_placeholder = "{{name}}";
    let author_placeholder = "{{author}}";
    proof {
        reveal_strlit("{{name}}");
        reveal_strlit("{{author}}");
    }
    assert(name_placeholder@ =~= name_tag());
    assert(author_placeholder@ =~= author_tag());
    let with_name = replace_all(content, name_placeholder, project_name);
    replace_all(with_name.as_str(), author_placeholder, author)
}

/// No `{` occurs in `s`.
pub open spec fn has_no_brace(s: Seq<char>) -> bool {
    forall|i: int| 0 <= i < s.len() ==> s[i] != '{'
}

proof fn lemma_concat_no_brace(a: Seq<char>, b: Seq<char>)
    requires
        has_no_brace(a),
        has_no_brace(b),
    ensures
        has_no_brace(a + b),
{
    assert forall|i: int| 0 <= i < (a + b).len() implies (a + b)[i] != '{' by {
        if i < a.len() {
            assert((a + b)[i] == a[i]);
        } else {
            assert((a + b)[i] == b[i - a.len()]);
        }
    }
}

/// The project's name goes into the template verbatim: in a text without
/// other braces, `{{name}}` is replaced by exactly the name.
pub proof fn lemma_fill_puts_name(p: Seq<char>, q: Seq<char>, name: Seq<char>, author: Seq<char>)
    requires
        has_no_brace(p),
        has_no_brace(q),
        has_no_brace(name),
    ensures
        filled(p + name_tag() + q, name, author) == p + name + q,
{
    let nt = name_tag();
    let at = author_tag();
    assert(p + nt + q =~= p + (nt + q));
    lemma_replace_after_plain_prefix(p, nt + q, nt, name);
    lemma_replace_leading(nt, q, name);
    lemma_replace_plain(q, nt, name);
    assert(p + (name + q) =~= p + name + q);
    lemma_concat_no_brace(p, name);
    lemma_concat_no_brace(p + name, q);
    lemma_replace_plain(p + name + q, at, author);
}

/// The author's name goes into the template verbatim: in a text without
/// other braces, `{{author}}` is replaced by exactly the author.
pub proof fn lemma_fill_puts_author(p: Seq<char>, q: Seq<char>, name: Seq<char>, author: Seq<char>)
    requires
        has_no_brace(p),
        has_no_brace(q),
        has_no_brace(name),
    ensures
        filled(p + author_tag() + q, name, author) == p + author + q,
{
    let nt = name_tag();
    let at = author_tag();
    // the name's placeholder does not occur: only the two braces of
    // `{{author}}` could start it, and they are followed by other characters
    let rest = at.skip(2) + q;
    assert(has_no_brace(at.skip(2)));
    lemma_concat_no_brace(at.skip(2), q);
    lemma_replace_plain(rest, nt, name);
    let t1 = at.skip(1) + q;
    assert(t1.take(nt.len() as int)[1] != nt[1]);
    assert(t1.skip(1) =~= rest);
    assert(seq![t1[0]] + rest =~= t1);
    assert(replaced(t1, nt, name) == t1);
    let t0 = at + q;
    assert(t0.take(nt.len() as int)[2] != nt[2]);
    assert(t0.skip(1) =~= t1);
    assert(seq![t0[0]] + t1 =~= t0);
    assert(replaced(t0, nt, name) == t0);
    assert(p + at + q =~= p + t0);
    lemma_replace_after_plain_prefix(p, t0, nt, name);
    lemma_replace_after_plain_prefix(p, t0, at, author);
    lemma_replace_leading(at, q, author);
    lemma_replace_plain(q, at, author);
    assert(p + (author + q) =~= p + author + q);
}

/// The name is put in before the author: an `{{author}}` that the project's
/// name brings into the text is filled in with the author too.
pub proof fn lemma_fill_name_before_author(p: Seq<char>, q: Seq<char>, author: Seq<char>)
    requires
        has_no_brace(p),
        has_no_brace(q),
    ensures
        filled(p + name_tag() + q, author_tag(), author) == p + author + q,
{
    let nt = name_tag();
    let at = author_tag();
    assert(p + nt + q =~= p + (nt + q));
    lemma_replace_after_plain_prefix(p, nt + q, nt, at);
    lemma_replace_leading(nt, q, at);
    lemma_replace_plain(q, nt, at);
    assert(p + (at + q) =~= p + at + q);
    assert(p + at + q =~= p + (at + q));
    lemma_replace_after_plain_prefix(p, at + q, at, author);
    lemma_replace_leading(at, q, author);
    lemma_replace_plain(q, at, author);
    assert(p + (author + q) =~= p + author + q);
}

/// A template that holds neither placeholder comes back unchanged.
pub proof fn lemma_fill_without_tags(content: Seq<char>, name: Seq<char>, author: Seq<char>)
    requires
        forall|i: int| !occurs_at(content, name_tag(), i),
        forall|i: int| !occurs_at(content, author_tag(), i),
    ensures
        filled(content, name, author) == content,
{
    lemma_replace_absent(content, name_tag(), name);
    lemma_replace_absent(content, author_tag(), author);
}

} // verus!
