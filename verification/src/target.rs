//! Build options, output targets and where a build puts its files.

use vstd::prelude::*;
use crate::text::{same_text, replace_all, replaced, lemma_replace_after_plain_prefix, lemma_replace_whole};

verus! {

broadcast use vstd::string::group_string_axioms;

/// Options of the `run` and `build` commands.
pub struct Build {
    /// The target to build for; when absent it is chosen from the project.
    pub target: Option<String>,
    /// Directory of the project's sources.
    pub source_dir: String,
    /// Output directory; `{target}` in it stands for the target's name.
    pub target_dir: String,
}

/// An output target that the tool can build and run.
#[derive(PartialEq, Eq, Structural, Clone, Copy, Debug)]
pub enum Target {
    /// A web page served from `target/app/web`.
    Web,
    /// A program run by node.js.
    Node,
}

/// The name of a target, as it is written on the command line and as the
/// project directory that holds its files is called.
pub open spec fn target_name_spec(t: Target) -> Seq<char> {
    match t {
        Target::Web => seq!['w', 'e', 'b'],
        Target::Node => seq!['n', 'o', 'd', 'e'],
    }
}

/// The target that `name` names, if any.
pub open spec fn target_named(name: Seq<char>) -> Option<Target> {
    if name == target_name_spec(Target::Web) {
        Some(Target::Web)
    } else if name == target_name_spec(Target::Node) {
        Some(Target::Node)
    } else {
        None
    }
}

/// `name` is the name of a supported target.
pub open spec fn is_supported(name: Seq<char>) -> bool {
    target_named(name) is Some
}

/// The text that stands for the target's name in an output directory.
pub open spec fn target_placeholder() -> Seq<char> {
    seq!['{', 't', 'a', 'r', 'g', 'e', 't', '}']
}

impl Target {
    /// The target's name.
    pub fn name(self) -> (r: &'static str)
        ensures
            r@ == target_name_spec(self),
    {
        match self {
            Target::Web => {
                let r = "web";
                proof {
                    reveal_strlit("web");
                }
                assert(r@ =~= target_name_spec(self));
                r
            },
            Target::Node => {
                let r = "node";
                proof {
                    reveal_strlit("node");
                }
                assert(r@ =~= target_name_spec(self));
                r
            },
        }
    }

    /// The target named `name`, or `None` for an unsupported name.
    pub fn parse(name: &str) -> (r: Option<Target>)
        ensures
            r == target_named(name@),
    {
        if same_text(name, Target::Web.name()) {
            Some(Target::Web)
        } else if same_text(name, Target::Node.name()) {
            Some(Target::Node)
        } else {
            None
        }
    }
}

/// Naming a target and reading the name back gives the same target, and the
/// two targets have different names.
pub proof fn lemma_target_names_round_trip(t: Target)
    ensures
        target_named(target_name_spec(t)) == Some(t),
        target_name_spec(Target::Web) != target_name_spec(Target::Node),
{
    assert(target_name_spec(Target::Web).len() != target_name_spec(Target::Node).len());
}

/// The output directory for the target named `target`: `template` with every
/// `{target}` replaced by that name.
pub fn expand_target_dir(template: &str, target: &str) -> (r: String)
    ensures
        r@ == replaced(template@, target_placeholder(), target@),
{
    let placeholder = "{target}";
    proof {
        reveal_strlit("{target}");
    }
    assert(placeholder@ =~= target_placeholder());
    replace_all(template, placeholder, target)
}

/// The output directory that the build options name when none is given.
pub open spec fn default_target_dir() -> Seq<char> {
    seq!['t', 'a', 'r', 'g', 'e', 't', '/', 'a', 'p', 'p', '/'] + target_placeholder()
}

/// With the default output directory, a target's files go to
/// `target/app/` followed by the target's name, whatever that name is.
pub proof fn lemma_default_target_dir(name: Seq<char>)
    ensures
        replaced(default_target_dir(), target_placeholder(), name) == seq![
            't',
            'a',
            'r',
            'g',
            'e',
            't',
            '/',
            'a',
            'p',
            'p',
            '/',
        ] + name,
{
    let prefix = seq!['t', 'a', 'r', 'g', 'e', 't', '/', 'a', 'p', 'p', '/'];
    lemma_replace_after_plain_prefix(prefix, target_placeholder(), target_placeholder(), name);
    lemma_replace_whole(target_placeholder(), name);
}

/// The names of `names` that name supported targets, in their order.
pub fn supported_targets(names: &Vec<String>) -> (r: Vec<String>)
    ensures
        r.deep_view() == supported_only(names.deep_view()),
{
    let ghost pred = |n: Seq<char>| is_supported(n);
    let mut r: Vec<String> = Vec::new();
    let mut i: usize = 0;
    while i < names.len()
        invariant
            pred == (|n: Seq<char>| is_supported(n)),
            i <= names.len(),
            r.deep_view() == names.deep_view().take(i as int).filter(pred),
        decreases names.len() - i,
    {
        let ghost before = r.deep_view();
        let name = &names[i];
        let keep = Target::parse(name.as_str()).is_some();
        if keep {
            r.push(name.clone());
        }
        proof {
            let s = names.deep_view().take(i + 1);
            assert(s.drop_last() =~= names.deep_view().take(i as int));
            assert(s.last() == name@);
            reveal_with_fuel(Seq::filter, 1);
            assert(pred(name@) == keep);
            if keep {
                assert(r.deep_view() =~= before.push(name@));
            } else {
                assert(r.deep_view() =~= before);
            }
        }
        i = i + 1;
    }
    assert(names.deep_view().take(names.len() as int) =~= names.deep_view());
    r
}

/// The names among `names` that name supported targets, in their order.
pub open spec fn supported_only(names: Seq<Seq<char>>) -> Seq<Seq<char>> {
    names.filter(|n: Seq<char>| is_supported(n))
}

/// Scanning keeps exactly the names of supported targets: every name it
/// returns names a supported target and comes from the scanned names, and
/// every scanned supported name is returned.
pub proof fn lemma_scanned_targets_supported(names: Seq<Seq<char>>)
    ensures
        forall|i: int|
            0 <= i < supported_only(names).len() ==> is_supported(#[trigger] supported_only(names)[i])
                && names.contains(supported_only(names)[i]),
        forall|n: Seq<char>| names.contains(n) && is_supported(n) ==> #[trigger] supported_only(
            names,
        ).contains(n),
{
    broadcast use vstd::seq_lib::group_filter_ensures;

    let pred = |n: Seq<char>| is_supported(n);
    assert forall|i: int| 0 <= i < supported_only(names).len() implies is_supported(
        #[trigger] supported_only(names)[i],
    ) && names.contains(supported_only(names)[i]) by {
        names.lemma_filter_pred(pred, i);
        assert(names.filter(pred).contains(names.filter(pred)[i]));
        names.lemma_filter_contains_rev(pred, names.filter(pred)[i]);
    }
    assert forall|n: Seq<char>| names.contains(n) && is_supported(n) implies #[trigger] supported_only(
        names,
    ).contains(n) by {
        let k = choose|k: int| 0 <= k < names.len() && names[k] == n;
        names.lemma_filter_contains(pred, k);
    }
}

/// How the target of a build is settled.
#[derive(Debug)]
pub enum TargetChoice {
    /// The target given in the build options.
    Requested(String),
    /// The project holds exactly one supported target.
    Only(String),
    /// The project holds several supported targets: the user is asked, and
    /// the first one is offered as the answer.
    Ask { default: String },
    /// The project holds no supported target.
    NoneAvailable,
}

/// Settles the target of a build. A requested target is used as it is;
/// otherwise `available`, the supported targets that the project holds, decides.
pub fn choose_target(requested: &Option<String>, available: &Vec<String>) -> (r: TargetChoice)
    ensures
        requested matches Some(t) ==> (r matches TargetChoice::Requested(s) && s@ == t@),
        requested is None && available@.len() == 0 ==> r is NoneAvailable,
        requested is None && available@.len() == 1 ==> (r matches TargetChoice::Only(t)
            && t@ == available@[0]@),
        requested is None && available@.len() > 1 ==> (r matches TargetChoice::Ask {
            default,
        } && default@ == available@[0]@),
{
    match requested {
        Some(t) => TargetChoice::Requested(t.clone()),
        None => {
            if available.len() == 0 {
                TargetChoice::NoneAvailable
            } else if available.len() == 1 {
                TargetChoice::Only(available[0].clone())
            } else {
                TargetChoice::Ask { default: available[0].clone() }
            }
        },
    }
}

/// Where a build for one target puts its files.
pub enum BuildLayout {
    /// Web build: the page is copied into `target_dir`, with its scripts in
    /// `lib_dir`; `copy_dest` is the directory the project's `web` folder is
    /// copied to.
    Web { target_dir: String, lib_dir: String, copy_dest: String },
    /// Node build: the project's `node` folder is copied into `target_dir`
    /// and the compiled module goes to `wasm_dest`.
    Node { target_dir: String, wasm_dest: String },
}

/// `"/assets/lib"`
pub open spec fn assets_lib_suffix() -> Seq<char> {
    seq!['/', 'a', 's', 's', 'e', 't', 's', '/', 'l', 'i', 'b']
}

/// `"/assets/app.wasm"`
pub open spec fn app_wasm_suffix() -> Seq<char> {
    seq!['/', 'a', 's', 's', 'e', 't', 's', '/', 'a', 'p', 'p', '.', 'w', 'a', 's', 'm']
}

/// The directories and files that a build for `target` writes, for the
/// output directory template `template`.
pub fn build_layout(target: Target, template: &str) -> (r: BuildLayout)
    ensures
        target == Target::Web ==> (r matches BuildLayout::Web { target_dir, lib_dir, copy_dest } && {
            &&& target_dir@ == replaced(template@, target_placeholder(), target_name_spec(target))
            &&& lib_dir@ == target_dir@ + assets_lib_suffix()
            &&& copy_dest@ == target_dir@ + seq!['/']
        }),
        target == Target::Node ==> (r matches BuildLayout::Node { target_dir, wasm_dest } && {
            &&& target_dir@ == replaced(template@, target_placeholder(), target_name_spec(target))
            &&& wasm_dest@ == target_dir@ + app_wasm_suffix()
        }),
{
    let target_dir = expand_target_dir(template, target.name());
    match target {
        Target::Web => {
            let mut lib_dir = target_dir.clone();
            let suffix = "/assets/lib";
            proof {
                reveal_strlit("/assets/lib");
            }
            assert(suffix@ =~= assets_lib_suffix());
            lib_dir.append(suffix);
            let mut copy_dest = target_dir.clone();
            let slash = "/";
            proof {
                reveal_strlit("/");
            }
            assert(slash@ =~= seq!['/']);
            copy_dest.append(slash);
            BuildLayout::Web { target_dir, lib_dir, copy_dest }
        },
        Target::Node => {
            let mut wasm_dest = target_dir.clone();
            let suffix = "/assets/app.wasm";
            proof {
                reveal_strlit("/assets/app.wasm");
            }
            assert(suffix@ =~= app_wasm_suffix());
            wasm_dest.append(suffix);
            BuildLayout::Node { target_dir, wasm_dest }
        },
    }
}

/// What the change watcher reports after files of the project changed.
#[derive(Debug)]
pub enum ChangeSummary {
    /// Exactly one file changed: its path is shown.
    One(String),
    /// Some other number of files changed: only the number is shown.
    Many(usize),
}

/// Summarizes a batch of changed paths: the path itself when there is exactly
/// one, otherwise how many there are.
pub fn summarize_changes(paths: &Vec<String>) -> (r: ChangeSummary)
    ensures
        paths@.len() == 1 ==> (r matches ChangeSummary::One(p) && p@ == paths@[0]@),
        paths@.len() != 1 ==> (r matches ChangeSummary::Many(n) && n == paths@.len()),
{
    if paths.len() == 1 {
        ChangeSummary::One(paths[0].clone())
    } else {
        ChangeSummary::Many(paths.len())
    }
}

} // verus!
