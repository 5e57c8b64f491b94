//! Reading the command line: whether the call is an `exec` call that needs a
//! container label, and what the options before `--` say.
use vstd::prelude::*;
use vstd::slice::slice_subrange;
use vstd::string::StrSliceExecFns;

use crate::text::{is_prefix_of, starts_with, str_eq, suffix_from};

verus! {

/// The arguments as character sequences.
pub open spec fn strs(v: Seq<String>) -> Seq<Seq<char>> {
    v.map_values(|s: String| s@)
}

/// An optional string as an optional character sequence.
pub open spec fn opt_str(o: Option<String>) -> Option<Seq<char>> {
    match o {
        Some(s) => Some(s@),
        None => None,
    }
}

/// The token that ends the options: everything after it belongs to the
/// command run inside the container.
pub open spec fn double_dash() -> Seq<char> {
    "--"@
}

/// The subcommand that this wrapper rewrites.
pub open spec fn exec_word() -> Seq<char> {
    "exec"@
}

pub open spec fn help_word() -> Seq<char> {
    "--help"@
}

pub open spec fn version_word() -> Seq<char> {
    "--version"@
}

pub open spec fn workspace_long() -> Seq<char> {
    "--workspace-folder"@
}

pub open spec fn workspace_short() -> Seq<char> {
    "-w"@
}

pub open spec fn workspace_long_eq() -> Seq<char> {
    "--workspace-folder="@
}

pub open spec fn workspace_short_eq() -> Seq<char> {
    "-w="@
}

pub open spec fn id_label_word() -> Seq<char> {
    "--id-label"@
}

/// No `--` occurs among the first `i` arguments.
pub open spec fn before_double_dash(args: Seq<Seq<char>>, i: int) -> bool {
    forall|j: int| 0 <= j < i ==> args[j] != double_dash()
}

/// `i` is where the subcommand `exec` stands: of the tokens `exec` and `--`,
/// the first one in `args` is `exec`, at `i`.
pub open spec fn is_exec_token_at(args: Seq<Seq<char>>, i: int) -> bool {
    &&& 0 <= i < args.len()
    &&& args[i] == exec_word()
    &&& forall|j: int| 0 <= j < i ==> args[j] != double_dash() && args[j] != exec_word()
}

/// The position of the subcommand `exec`, if the call has one.
pub open spec fn exec_token_position(args: Seq<Seq<char>>) -> Option<int> {
    if exists|i: int| is_exec_token_at(args, i) {
        Some(choose|i: int| is_exec_token_at(args, i))
    } else {
        None
    }
}

/// `--help` or `--version`.
pub open spec fn is_help_token(t: Seq<char>) -> bool {
    t == help_word() || t == version_word()
}

/// Some `--help` or `--version` comes before any `--`.
pub open spec fn help_before_double_dash(args: Seq<Seq<char>>) -> bool {
    exists|i: int| 0 <= i < args.len() && before_double_dash(args, i) && is_help_token(args[i])
}

/// `token` is the option `name`, alone or in the form `name=value`.
pub open spec fn flag_matches(token: Seq<char>, name: Seq<char>) -> bool {
    ||| token == name
    ||| (is_prefix_of(name, token) && token.len() > name.len() && token[name.len() as int] == '=')
}

/// The option `name` is given before any `--`.
pub open spec fn flag_before_double_dash(args: Seq<Seq<char>>, name: Seq<char>) -> bool {
    exists|i: int|
        0 <= i < args.len() && before_double_dash(args, i) && args[i] != double_dash()
            && flag_matches(args[i], name)
}

/// `t` names the workspace folder: `--workspace-folder`, `-w`, or one of them
/// followed by `=` and the value.
pub open spec fn is_workspace_token(t: Seq<char>) -> bool {
    ||| t == workspace_long()
    ||| t == workspace_short()
    ||| is_prefix_of(workspace_long_eq(), t)
    ||| is_prefix_of(workspace_short_eq(), t)
}

/// `i` is the first workspace option before any `--`.
pub open spec fn is_workspace_token_at(args: Seq<Seq<char>>, i: int) -> bool {
    &&& 0 <= i < args.len()
    &&& args[i] != double_dash()
    &&& is_workspace_token(args[i])
    &&& forall|j: int| 0 <= j < i ==> args[j] != double_dash() && !is_workspace_token(args[j])
}

/// The value that the workspace option at `i` gives: the next argument for
/// the separate form (none when there is no next argument), the text after
/// `=` for the joined form.
pub open spec fn workspace_value_at(args: Seq<Seq<char>>, i: int) -> Option<Seq<char>> {
    let t = args[i];
    if t == workspace_long() || t == workspace_short() {
        if i + 1 < args.len() {
            Some(args[i + 1])
        } else {
            None
        }
    } else if is_prefix_of(workspace_long_eq(), t) {
        Some(t.skip(workspace_long_eq().len() as int))
    } else {
        Some(t.skip(workspace_short_eq().len() as int))
    }
}

/// The workspace folder that the options before any `--` name.
pub open spec fn peeked_workspace(args: Seq<Seq<char>>) -> Option<Seq<char>> {
    if exists|i: int| is_workspace_token_at(args, i) {
        workspace_value_at(args, choose|i: int| is_workspace_token_at(args, i))
    } else {
        None
    }
}

/// The first of two optional values that is present.
pub open spec fn first_present(a: Option<Seq<char>>, b: Option<Seq<char>>) -> Option<Seq<char>> {
    if a is Some {
        a
    } else {
        b
    }
}

proof fn lemma_exec_token_unique(args: Seq<Seq<char>>, i: int, k: int)
    requires
        is_exec_token_at(args, i),
        is_exec_token_at(args, k),
    ensures
        i == k,
{
    if i < k {
        assert(args[i] != exec_word());
    } else if k < i {
        assert(args[k] != exec_word());
    }
}

proof fn lemma_exec_token_position(args: Seq<Seq<char>>, i: int)
    requires
        is_exec_token_at(args, i),
    ensures
        exec_token_position(args) == Some(i),
{
    let k = choose|k: int| is_exec_token_at(args, k);
    lemma_exec_token_unique(args, i, k);
}

proof fn lemma_workspace_token_unique(args: Seq<Seq<char>>, i: int, k: int)
    requires
        is_workspace_token_at(args, i),
        is_workspace_token_at(args, k),
    ensures
        i == k,
{
    if i < k {
        assert(!is_workspace_token(args[i]));
    } else if k < i {
        assert(!is_workspace_token(args[k]));
    }
}

proof fn lemma_peeked_workspace(args: Seq<Seq<char>>, i: int)
    requires
        is_workspace_token_at(args, i),
    ensures
        peeked_workspace(args) == workspace_value_at(args, i),
{
    let k = choose|k: int| is_workspace_token_at(args, k);
    lemma_workspace_token_unique(args, i, k);
}

/// The words that the scans stop at are not themselves options that they look for.
proof fn lemma_word_facts()
    ensures
        double_dash() != exec_word(),
        !is_help_token(double_dash()),
        !is_workspace_token(double_dash()),
        !is_help_token(exec_word()),
        double_dash().len() == 2,
        exec_word().len() == 4,
        workspace_long_eq().len() == 19,
        workspace_short_eq().len() == 3,
{
    reveal_strlit("--");
    reveal_strlit("exec");
    reveal_strlit("--help");
    reveal_strlit("--version");
    reveal_strlit("--workspace-folder");
    reveal_strlit("-w");
    reveal_strlit("--workspace-folder=");
    reveal_strlit("-w=");
    assert(double_dash().len() != help_word().len());
    assert(double_dash().len() != version_word().len());
    assert(double_dash().len() != workspace_long().len());
    assert(double_dash()[1] != workspace_short()[1]);
    assert(exec_word().len() != help_word().len());
    assert(exec_word().len() != version_word().len());
}

/// The position of the subcommand `exec`: the first argument that is `exec`,
/// provided no `--` comes before it.
pub fn find_exec_token(argv: &[String]) -> (res: Option<usize>)
    ensures
        match res {
            Some(i) => exec_token_position(strs(argv@)) == Some(i as int),
            None => exec_token_position(strs(argv@)) is None,
        },
{
    let ghost a = strs(argv@);
    proof {
        lemma_word_facts();
    }
    let mut i: usize = 0;
    while i < argv.len()
        invariant
            i <= argv@.len(),
            a == strs(argv@),
            double_dash() != exec_word(),
            forall|j: int| 0 <= j < i ==> a[j] != double_dash() && a[j] != exec_word(),
        decreases argv@.len() - i,
    {
        let t = argv[i].as_str();
        if str_eq(t, "exec") {
            proof {
                assert(is_exec_token_at(a, i as int));
                let n = argv.len();
                assert(i < n);
                lemma_exec_token_position(a, i as int);
            }
            return Some(i);
        }
        if str_eq(t, "--") {
            proof {
                assert forall|k: int| !is_exec_token_at(a, k) by {
                    if is_exec_token_at(a, k) && k > i {
                        assert(a[i as int] != double_dash());
                    }
                }
            }
            return None;
        }
        i = i + 1;
    }
    proof {
        assert forall|k: int| !is_exec_token_at(a, k) by {
            if 0 <= k < a.len() {
                assert(a[k] != exec_word());
            }
        }
    }
    None
}

/// Whether `--help` or `--version` comes before any `--`.
pub fn contains_help(tokens: &[String]) -> (res: bool)
    ensures
        res == help_before_double_dash(strs(tokens@)),
{
    let ghost a = strs(tokens@);
    proof {
        lemma_word_facts();
    }
    let mut i: usize = 0;
    while i < tokens.len()
        invariant
            i <= tokens@.len(),
            a == strs(tokens@),
            !is_help_token(double_dash()),
            forall|j: int| 0 <= j < i ==> a[j] != double_dash() && !is_help_token(a[j]),
        decreases tokens@.len() - i,
    {
        let t = tokens[i].as_str();
        if str_eq(t, "--") {
            proof {
                assert forall|k: int|
                    !(0 <= k < a.len() && before_double_dash(a, k) && is_help_token(a[k])) by {
                    if 0 <= k < a.len() && before_double_dash(a, k) && k > i {
                        assert(a[i as int] != double_dash());
                    }
                }
            }
            return false;
        }
        if str_eq(t, "--help") || str_eq(t, "--version") {
            proof {
                assert(before_double_dash(a, i as int));
            }
            return true;
        }
        i = i + 1;
    }
    proof {
        assert forall|k: int|
            !(0 <= k < a.len() && before_double_dash(a, k) && is_help_token(a[k])) by {
            if 0 <= k < a.len() {
                assert(!is_help_token(a[k]));
            }
        }
    }
    false
}

/// The value of the first `--workspace-folder` / `-w` option before any `--`,
/// in its separate (`-w value`) or joined (`-w=value`) form.
pub fn peek_workspace_flag(args: &[String]) -> (res: Option<String>)
    ensures
        opt_str(res) == peeked_workspace(strs(args@)),
{
    let ghost a = strs(args@);
    proof {
        lemma_word_facts();
    }
    let long_eq_len = "--workspace-folder=".unicode_len();
    let short_eq_len = "-w=".unicode_len();
    let mut i: usize = 0;
    while i < args.len()
        invariant
            i <= args@.len(),
            a == strs(args@),
            !is_workspace_token(double_dash()),
            long_eq_len == workspace_long_eq().len(),
            short_eq_len == workspace_short_eq().len(),
            forall|j: int| 0 <= j < i ==> a[j] != double_dash() && !is_workspace_token(a[j]),
        decreases args@.len() - i,
    {
        let t = args[i].as_str();
        if str_eq(t, "--") {
            proof {
                assert forall|k: int| !is_workspace_token_at(a, k) by {
                    if is_workspace_token_at(a, k) && k > i {
                        assert(a[i as int] != double_dash());
                    }
                }
            }
            return None;
        }
        if str_eq(t, "--workspace-folder") || str_eq(t, "-w") {
            proof {
                assert(is_workspace_token_at(a, i as int));
                lemma_peeked_workspace(a, i as int);
            }
            if i + 1 < args.len() {
                return Some(args[i + 1].clone());
            } else {
                return None;
            }
        }
        if starts_with(t, "--workspace-folder=") {
            proof {
                assert(is_workspace_token_at(a, i as int));
                lemma_peeked_workspace(a, i as int);
            }
            return Some(suffix_from(t, long_eq_len));
        }
        if starts_with(t, "-w=") {
            proof {
                assert(is_workspace_token_at(a, i as int));
                lemma_peeked_workspace(a, i as int);
            }
            return Some(suffix_from(t, short_eq_len));
        }
        i = i + 1;
    }
    proof {
        assert forall|k: int| !is_workspace_token_at(a, k) by {
            if 0 <= k < a.len() {
                assert(!is_workspace_token(a[k]));
            }
        }
    }
    None
}

/// Whether the option `name` is given before any `--`, alone or as `name=value`.
pub fn has_flag(args: &[String], name: &str) -> (res: bool)
    ensures
        res == flag_before_double_dash(strs(args@), name@),
{
    let ghost a = strs(args@);
    let name_len = name.unicode_len();
    let mut i: usize = 0;
    while i < args.len()
        invariant
            i <= args@.len(),
            a == strs(args@),
            name_len == name@.len(),
            forall|j: int|
                0 <= j < i ==> a[j] != double_dash() && !flag_matches(a[j], name@),
        decreases args@.len() - i,
    {
        let t = args[i].as_str();
        if str_eq(t, "--") {
            proof {
                assert forall|k: int|
                    !(0 <= k < a.len() && before_double_dash(a, k) && a[k] != double_dash()
                        && flag_matches(a[k], name@)) by {
                    if 0 <= k < a.len() && before_double_dash(a, k) && k > i {
                        assert(a[i as int] != double_dash());
                    }
                }
            }
            return false;
        }
        if str_eq(t, name) {
            proof {
                assert(before_double_dash(a, i as int));
            }
            return true;
        }
        if starts_with(t, name) {
            if t.unicode_len() > name_len && t.get_char(name_len) == '=' {
                proof {
                    assert(before_double_dash(a, i as int));
                }
                return true;
            }
        }
        i = i + 1;
    }
    proof {
        assert forall|k: int|
            !(0 <= k < a.len() && before_double_dash(a, k) && a[k] != double_dash()
                && flag_matches(a[k], name@)) by {
            if 0 <= k < a.len() {
                assert(!flag_matches(a[k], name@));
            }
        }
    }
    false
}


/// How the wrapper treats a call.
pub enum Args {
    /// An `exec` call: a container label may be added right after `exec`.
    Exec(ExecArgs),
    /// Any other call: handed on unchanged.
    Passthrough(Vec<String>),
}

/// An `exec` call, split around its `exec` token, with what its options say.
pub struct ExecArgs {
    /// The arguments before the `exec` token.
    pub pre: Vec<String>,
    /// The arguments after the `exec` token.
    pub post: Vec<String>,
    /// The value of the first `--workspace-folder` / `-w` option before `--`,
    /// looked for before `exec`, then after it.
    pub workspace_folder: Option<String>,
    /// Whether `--workspace-folder` or `-w` is given before `--`.
    pub has_workspace_flag: bool,
    /// Whether `--id-label` is given before `--`.
    pub has_id_label: bool,
    /// Whether `--help` or `--version` follows `exec`, before `--`.
    pub help_requested: bool,
}

impl ExecArgs {
    /// The arguments before the `exec` token.
    pub open spec fn pre_args(&self) -> Seq<Seq<char>> {
        strs(self.pre@)
    }

    /// The arguments after the `exec` token.
    pub open spec fn post_args(&self) -> Seq<Seq<char>> {
        strs(self.post@)
    }

    /// The public fields say what the two halves of the call say.
    pub open spec fn flags_agree(&self) -> bool {
        let pre = self.pre_args();
        let post = self.post_args();
        &&& opt_str(self.workspace_folder) == first_present(
            peeked_workspace(pre),
            peeked_workspace(post),
        )
        &&& self.has_workspace_flag == (flag_before_double_dash(pre, workspace_long())
            || flag_before_double_dash(pre, workspace_short()) || flag_before_double_dash(
            post,
            workspace_long(),
        ) || flag_before_double_dash(post, workspace_short()))
        &&& self.has_id_label == (flag_before_double_dash(pre, id_label_word())
            || flag_before_double_dash(post, id_label_word()))
        &&& self.help_requested == help_before_double_dash(post)
    }

    fn new(pre: Vec<String>, post: Vec<String>) -> (res: Self)
        ensures
            res.pre_args() == strs(pre@),
            res.post_args() == strs(post@),
            res.flags_agree(),
    {
        let workspace_folder = match peek_workspace_flag(pre.as_slice()) {
            Some(w) => Some(w),
            None => peek_workspace_flag(post.as_slice()),
        };
        let has_workspace_flag = has_flag(pre.as_slice(), "--workspace-folder") || has_flag(
            pre.as_slice(),
            "-w",
        ) || has_flag(post.as_slice(), "--workspace-folder") || has_flag(post.as_slice(), "-w");
        let has_id_label = has_flag(pre.as_slice(), "--id-label") || has_flag(
            post.as_slice(),
            "--id-label",
        );
        let help_requested = contains_help(post.as_slice());
        ExecArgs { pre, post, workspace_folder, has_workspace_flag, has_id_label, help_requested }
    }

    /// The command line to hand on: the arguments before `exec`, `exec`,
    /// `insert`, then the arguments after `exec`.
    pub fn into_argv(self, insert: Vec<String>) -> (res: Vec<String>)
        ensures
            strs(res@) == self.pre_args() + seq![exec_word()] + strs(insert@) + self.post_args(),
    {
        let ghost ins = insert@;
        let ghost pre0 = self.pre@;
        let ghost post0 = self.post@;
        let mut argv = self.pre;
        let mut insert = insert;
        let mut post = self.post;
        argv.push("exec".to_owned());
        argv.append(&mut insert);
        argv.append(&mut post);
        proof {
            assert(strs(argv@) == strs(pre0) + seq![exec_word()] + strs(ins) + strs(post0));
        }
        argv
    }
}

/// The call is an `exec` call for this wrapper: it has an `exec` token, and no
/// `--help` or `--version` comes before it.
pub open spec fn exec_dispatch(argv: Seq<Seq<char>>) -> bool {
    match exec_token_position(argv) {
        Some(i) => !help_before_double_dash(argv.take(i)),
        None => false,
    }
}

/// `e` is the `exec` call that `argv` makes.
pub open spec fn parsed_as_exec(argv: Seq<Seq<char>>, e: ExecArgs) -> bool {
    match exec_token_position(argv) {
        Some(i) => {
            &&& !help_before_double_dash(argv.take(i))
            &&& e.pre_args() == argv.take(i)
            &&& e.post_args() == argv.skip(i + 1)
            &&& e.flags_agree()
        },
        None => false,
    }
}

/// What `Args::parse` makes of `argv`.
pub open spec fn parse_relation(argv: Seq<Seq<char>>, res: Args) -> bool {
    match res {
        Args::Exec(e) => parsed_as_exec(argv, e),
        Args::Passthrough(v) => strs(v@) == argv && !exec_dispatch(argv),
    }
}

impl Args {
    /// Reads the command line (without the program name).
    pub fn parse(argv: Vec<String>) -> (res: Args)
        ensures
            parse_relation(strs(argv@), res),
            res is Exec <==> exec_dispatch(strs(argv@)),
            res matches Args::Passthrough(v) ==> v == argv,
    {
        let ghost a = strs(argv@);
        match find_exec_token(argv.as_slice()) {
            Some(i) => {
                assert(is_exec_token_at(a, i as int));
                let n = argv.len();
                assert(i < n);
                let before = slice_subrange(argv.as_slice(), 0, i);
                if !contains_help(before) {
                    proof {
                        assert(strs(before@) == a.take(i as int));
                    }
                    let mut pre = argv;
                    let post = pre.split_off(i + 1);
                    pre.truncate(i);
                    proof {
                        assert(strs(post@) == a.skip(i + 1));
                        assert(strs(pre@) == a.take(i as int));
                    }
                    Args::Exec(ExecArgs::new(pre, post))
                } else {
                    proof {
                        assert(strs(before@) == a.take(i as int));
                    }
                    Args::Passthrough(argv)
                }
            },
            None => Args::Passthrough(argv),
        }
    }
}


/// An `exec` call, split by `Args::parse`, gives back the call when its parts
/// are put together again with nothing inserted.
pub proof fn law_exec_split_rebuilds_call(argv: Seq<Seq<char>>, e: ExecArgs)
    requires
        parsed_as_exec(argv, e),
    ensures
        e.pre_args() + seq![exec_word()] + e.post_args() == argv,
{
    let i = exec_token_position(argv)->0;
    assert(is_exec_token_at(argv, i));
    assert(argv.take(i) + seq![exec_word()] + argv.skip(i + 1) == argv);
}

/// Whenever `--help` or `--version` comes before any `--`, the call is handed
/// on as it is: either it is no `exec` call for the wrapper, or it is one that
/// asks for help and whose parts give back the call.
pub proof fn law_help_passes_through(argv: Seq<Seq<char>>, res: Args)
    requires
        parse_relation(argv, res),
        help_before_double_dash(argv),
    ensures
        match res {
            Args::Passthrough(v) => strs(v@) == argv,
            Args::Exec(e) => e.help_requested && e.pre_args() + seq![exec_word()]
                + e.post_args() == argv,
        },
{
    match res {
        Args::Passthrough(v) => {},
        Args::Exec(e) => {
            law_exec_split_rebuilds_call(argv, e);
            lemma_word_facts();
            let i = exec_token_position(argv)->0;
            assert(is_exec_token_at(argv, i));
            let k = choose|k: int|
                0 <= k < argv.len() && before_double_dash(argv, k) && is_help_token(argv[k]);
            let pre = argv.take(i);
            let post = argv.skip(i + 1);
            if k < i {
                assert(pre[k] == argv[k]);
                assert(before_double_dash(pre, k));
                assert(help_before_double_dash(pre));
            }
            assert(k != i);
            assert(post[k - i - 1] == argv[k]);
            assert(before_double_dash(post, k - i - 1)) by {
                assert forall|j: int| 0 <= j < k - i - 1 implies post[j] != double_dash() by {
                    assert(post[j] == argv[i + 1 + j]);
                }
            }
            assert(help_before_double_dash(post));
        },
    }
}


proof fn lemma_first_exec_exists(argv: Seq<Seq<char>>, i: int)
    requires
        0 <= i < argv.len(),
        argv[i] == "exec"@,
        forall|j: int| 0 <= j < i ==> argv[j] != "--"@,
    ensures
        exists|k: int| is_exec_token_at(argv, k),
    decreases i,
{
    if exists|j: int| 0 <= j < i && argv[j] == "exec"@ {
        let j = choose|j: int| 0 <= j < i && argv[j] == "exec"@;
        lemma_first_exec_exists(argv, j);
    } else {
        assert(is_exec_token_at(argv, i));
    }
}

/// The `exec` subcommand of a call is its first `exec` argument, and only
/// counts when no `--` comes before it: at the position found stands `exec`,
/// and before it stands neither `exec` nor `--`; where none is found, every
/// `exec` argument has a `--` before it.
pub proof fn law_exec_token_is_first_exec(argv: Seq<Seq<char>>)
    ensures
        exec_token_position(argv) matches Some(i) ==> (0 <= i < argv.len() && argv[i] == "exec"@
            && forall|j: int| 0 <= j < i ==> argv[j] != "exec"@ && argv[j] != "--"@),
        exec_token_position(argv) is None ==> forall|i: int|
            0 <= i < argv.len() && argv[i] == "exec"@ ==> exists|j: int|
                0 <= j < i && argv[j] == "--"@,
{
    if exec_token_position(argv) is Some {
        let i = exec_token_position(argv)->0;
        assert(is_exec_token_at(argv, i));
    } else {
        assert forall|i: int| 0 <= i < argv.len() && argv[i] == "exec"@ implies exists|j: int|
            0 <= j < i && argv[j] == "--"@ by {
            if !exists|j: int| 0 <= j < i && argv[j] == "--"@ {
                lemma_first_exec_exists(argv, i);
            }
        }
    }
}


/// Help and the other options are looked for only before the first `--`:
/// help is asked exactly when `--help` or `--version` stands somewhere before
/// any `--`, and an option `name` is given exactly when `name` or
/// `name=value` stands somewhere before any `--`.
pub proof fn law_options_read_before_double_dash(args: Seq<Seq<char>>, name: Seq<char>)
    ensures
        help_before_double_dash(args) <==> exists|i: int|
            0 <= i < args.len() && (forall|j: int| 0 <= j < i ==> args[j] != "--"@) && (args[i]
                == "--help"@ || args[i] == "--version"@),
        flag_before_double_dash(args, name) <==> exists|i: int|
            0 <= i < args.len() && (forall|j: int| 0 <= j <= i ==> args[j] != "--"@) && (args[i]
                == name || (args[i].len() > name.len() && args[i].take(name.len() as int) == name
                && args[i][name.len() as int] == '=')),
{
    if help_before_double_dash(args) {
        let i = choose|i: int|
            0 <= i < args.len() && before_double_dash(args, i) && is_help_token(args[i]);
        assert(forall|j: int| 0 <= j < i ==> args[j] != "--"@);
    }
    if exists|i: int|
        0 <= i < args.len() && (forall|j: int| 0 <= j < i ==> args[j] != "--"@) && (args[i]
            == "--help"@ || args[i] == "--version"@) {
        let i = choose|i: int|
            0 <= i < args.len() && (forall|j: int| 0 <= j < i ==> args[j] != "--"@) && (args[i]
                == "--help"@ || args[i] == "--version"@);
        assert(before_double_dash(args, i) && is_help_token(args[i]));
    }
    if flag_before_double_dash(args, name) {
        let i = choose|i: int|
            0 <= i < args.len() && before_double_dash(args, i) && args[i] != double_dash()
                && flag_matches(args[i], name);
        assert(forall|j: int| 0 <= j <= i ==> args[j] != "--"@);
    }
    if exists|i: int|
        0 <= i < args.len() && (forall|j: int| 0 <= j <= i ==> args[j] != "--"@) && (args[i]
            == name || (args[i].len() > name.len() && args[i].take(name.len() as int) == name
            && args[i][name.len() as int] == '=')) {
        let i = choose|i: int|
            0 <= i < args.len() && (forall|j: int| 0 <= j <= i ==> args[j] != "--"@) && (args[i]
                == name || (args[i].len() > name.len() && args[i].take(name.len() as int) == name
                && args[i][name.len() as int] == '='));
        assert(before_double_dash(args, i) && args[i] != double_dash() && flag_matches(
            args[i],
            name,
        ));
    }
}

/// The workspace folder comes from the first workspace option before any
/// `--`: after `--workspace-folder` or `-w` it is the next argument (none
/// when there is none), after `--workspace-folder=` or `-w=` the rest of that
/// argument; where a `--` or the end of the call comes first, there is none.
/// `i` is where the first workspace option, `--` or the end of the call stands.
pub proof fn law_workspace_from_first_option(args: Seq<Seq<char>>, i: int)
    requires
        0 <= i <= args.len(),
        forall|j: int|
            0 <= j < i ==> args[j] != "--"@ && args[j] != "--workspace-folder"@ && args[j]
                != "-w"@ && !(args[j].len() >= 19 && args[j].take(19) == "--workspace-folder="@)
                && !(args[j].len() >= 3 && args[j].take(3) == "-w="@),
    ensures
        i == args.len() ==> peeked_workspace(args) is None,
        i < args.len() && args[i] == "--"@ ==> peeked_workspace(args) is None,
        i < args.len() && (args[i] == "--workspace-folder"@ || args[i] == "-w"@) ==> peeked_workspace(
            args,
        ) == (if i + 1 < args.len() {
            Some(args[i + 1])
        } else {
            None
        }),
        i < args.len() && args[i].len() >= 19 && args[i].take(19) == "--workspace-folder="@
            ==> peeked_workspace(args) == Some(args[i].skip(19)),
        i < args.len() && args[i].len() >= 3 && args[i].take(3) == "-w="@ ==> peeked_workspace(
            args,
        ) == Some(args[i].skip(3)),
{
    lemma_word_facts();
    reveal_strlit("--workspace-folder");
    reveal_strlit("-w");
    reveal_strlit("--workspace-folder=");
    reveal_strlit("-w=");
    assert forall|j: int| 0 <= j < i implies !is_workspace_token(args[j]) by {}
    if i < args.len() && is_workspace_token(args[i]) && args[i] != double_dash() {
        assert(is_workspace_token_at(args, i));
        lemma_peeked_workspace(args, i);
        let t = args[i];
        if t.len() >= 3 && t.take(3) == "-w="@ {
            assert(t.take(3)[1] == t[1]);
            assert(t[1] == 'w');
            assert(t != workspace_long());
            assert(t != workspace_short());
            assert(!is_prefix_of(workspace_long_eq(), t)) by {
                if is_prefix_of(workspace_long_eq(), t) {
                    assert(t.take(19)[1] == t[1]);
                }
            }
        }
    } else if i == args.len() || args[i] == "--"@ {
        assert forall|k: int| !is_workspace_token_at(args, k) by {
            if is_workspace_token_at(args, k) {
                if k > i && i < args.len() {
                    assert(args[i] != double_dash());
                }
            }
        }
    }
}

} // verus!
