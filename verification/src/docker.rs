//! What docker reports about its running containers: the ids that `docker ps -q`
//! prints and the dev containers that `docker inspect` describes.
use vstd::prelude::*;
use vstd::string::StrSliceExecFns;

use crate::args::strs;
use crate::error::DevContainerExError;
use crate::json::{get_member, member, member_str, parse_json, parsed_json, str_of, Json};
use crate::text::{chars_of, strip_leading, strip_leading_char};

verus! {

/// A running container that a dev container configuration made.
pub struct Container {
    /// The container's name, without its leading `/`.
    pub name: String,
    /// The `devcontainer.config_file` label.
    pub config_file: String,
    /// The `devcontainer.local_folder` label, where the container has one.
    pub local_folder: Option<String>,
}

/// A container by its texts.
pub struct ContainerView {
    pub name: Seq<char>,
    pub config_file: Seq<char>,
    pub local_folder: Option<Seq<char>>,
}

impl View for Container {
    type V = ContainerView;

    open spec fn view(&self) -> ContainerView {
        ContainerView {
            name: self.name@,
            config_file: self.config_file@,
            local_folder: match self.local_folder {
                Some(s) => Some(s@),
                None => None,
            },
        }
    }
}

/// The containers of a list, each by its texts.
pub open spec fn container_views(cs: Seq<Container>) -> Seq<ContainerView> {
    cs.map_values(|c: Container| c@)
}

/// The text of an optional string, empty where there is none.
pub open spec fn or_empty(o: Option<Seq<char>>) -> Seq<char> {
    match o {
        Some(s) => s,
        None => Seq::empty(),
    }
}

/// The labels of a `docker inspect` entry (`Config.Labels`).
pub open spec fn labels_of(item: Json) -> Json {
    member(member(item, "Config"@), "Labels"@)
}

/// The dev container that a `docker inspect` entry describes: none unless its
/// `devcontainer.config_file` label is a string.
pub open spec fn container_of(item: Json) -> Option<ContainerView> {
    let labels = labels_of(item);
    match str_of(member(labels, "devcontainer.config_file"@)) {
        Some(config_file) => Some(
            ContainerView {
                name: strip_leading(or_empty(str_of(member(item, "Name"@))), '/'),
                config_file,
                local_folder: str_of(member(labels, "devcontainer.local_folder"@)),
            },
        ),
        None => None,
    }
}

/// The dev containers among the entries, in their order.
pub open spec fn containers_of(items: Seq<Json>) -> Seq<ContainerView>
    decreases items.len(),
{
    if items.len() == 0 {
        Seq::empty()
    } else {
        let rest = containers_of(items.drop_last());
        match container_of(items.last()) {
            Some(c) => rest.push(c),
            None => rest,
        }
    }
}

/// The dev containers that a `docker inspect` document describes: those
/// among the entries of its top-level array, none where it is no array.
pub open spec fn inspect_containers(doc: Json) -> Seq<ContainerView> {
    match doc {
        Json::Array(items) => containers_of(items@),
        _ => Seq::empty(),
    }
}

/// The dev container that a `docker inspect` entry describes.
pub fn container_from_entry(item: &Json) -> (res: Option<Container>)
    ensures
        match res {
            Some(c) => container_of(*item) == Some(c@),
            None => container_of(*item) is None,
        },
{
    let labels = match get_member(item, "Config") {
        Some(config) => get_member(config, "Labels"),
        None => None,
    };
    let ghost labels_json = labels_of(*item);
    proof {
        match labels {
            Some(l) => assert(*l == labels_json),
            None => assert(labels_json == Json::Null),
        }
    }
    let config_file = match labels {
        Some(l) => member_str(l, "devcontainer.config_file"),
        None => None,
    };
    match config_file {
        None => None,
        Some(config_file) => {
            let name = match member_str(item, "Name") {
                Some(n) => strip_leading_char(n.as_str(), '/'),
                None => strip_leading_char("", '/'),
            };
            let local_folder = match labels {
                Some(l) => match member_str(l, "devcontainer.local_folder") {
                    Some(f) => Some(f.clone()),
                    None => None,
                },
                None => None,
            };
            proof {
                reveal_strlit("");
            }
            let c = Container { name, config_file: config_file.clone(), local_folder };
            assert(c@.name == strip_leading(or_empty(str_of(member(*item, "Name"@))), '/'));
            assert(c@.local_folder == str_of(member(labels_json, "devcontainer.local_folder"@)));
            assert(container_of(*item) == Some(c@));
            Some(c)
        },
    }
}

/// The dev containers that a `docker inspect` document describes.
pub fn containers_from_json(doc: &Json) -> (res: Vec<Container>)
    ensures
        container_views(res@) == inspect_containers(*doc),
{
    let mut res: Vec<Container> = Vec::new();
    match doc {
        Json::Array(items) => {
            let mut i: usize = 0;
            while i < items.len()
                invariant
                    i <= items@.len(),
                    container_views(res@) == containers_of(items@.take(i as int)),
                decreases items@.len() - i,
            {
                let found = container_from_entry(&items[i]);
                assert(items@.take(i + 1).drop_last() == items@.take(i as int));
                assert(items@.take(i + 1).last() == items@[i as int]);
                match found {
                    Some(c) => {
                        res.push(c);
                        assert(container_views(res@) == containers_of(items@.take(i as int)).push(c@));
                    },
                    None => {},
                }
                i = i + 1;
            }
            assert(items@.take(items@.len() as int) == items@);
        },
        _ => {},
    }
    res
}

/// The dev containers that the output of `docker inspect` describes; a
/// `DockerParse` error with serde_json's text where the output is no JSON.
pub fn containers_from_inspect(output: &[u8]) -> (res: Result<Vec<Container>, DevContainerExError>)
    ensures
        match parsed_json(output@) {
            Ok(doc) => res matches Ok(cs) && container_views(cs@) == inspect_containers(doc),
            Err(text) => res matches Err(DevContainerExError::DockerParse(t)) && t@ == text,
        },
{
    match parse_json(output) {
        Ok(doc) => Ok(containers_from_json(&doc)),
        Err(text) => Err(DevContainerExError::DockerParse(text)),
    }
}


/// Where the first line of `s` ends: the position of its first line feed, or
/// the length of `s` where it has none.
pub open spec fn line_end(s: Seq<char>) -> nat
    decreases s.len(),
{
    if s.len() == 0 {
        0
    } else if s[0] == '\n' {
        0
    } else {
        1 + line_end(s.drop_first())
    }
}

/// A line ended by a line feed, without the carriage return that may precede it.
pub open spec fn strip_cr(l: Seq<char>) -> Seq<char> {
    if l.len() > 0 && l.last() == '\r' {
        l.drop_last()
    } else {
        l
    }
}

/// The lines of `s` as `str::lines` yields them: split at each line feed,
/// a carriage return before a line feed dropped; a last line without a line
/// feed is kept as it is, and an empty rest after the last line feed is no line.
pub open spec fn lines_of(s: Seq<char>) -> Seq<Seq<char>>
    decreases s.len(),
{
    if s.len() == 0 {
        Seq::empty()
    } else if line_end(s) >= s.len() {
        seq![s]
    } else {
        seq![strip_cr(s.take(line_end(s) as int))] + lines_of(s.skip(line_end(s) as int + 1))
    }
}

/// The non-empty lines among `ls`, in order.
pub open spec fn keep_nonempty(ls: Seq<Seq<char>>) -> Seq<Seq<char>>
    decreases ls.len(),
{
    if ls.len() == 0 {
        Seq::empty()
    } else {
        (if ls[0].len() > 0 {
            seq![ls[0]]
        } else {
            Seq::empty()
        }) + keep_nonempty(ls.drop_first())
    }
}

/// The container ids that `docker ps -q` prints: its non-empty lines.
pub open spec fn ids_of(output: Seq<char>) -> Seq<Seq<char>> {
    keep_nonempty(lines_of(output))
}

proof fn lemma_keep_nonempty_cons(x: Seq<char>, rest: Seq<Seq<char>>)
    ensures
        keep_nonempty(seq![x] + rest) == (if x.len() > 0 {
            seq![x]
        } else {
            Seq::empty()
        }) + keep_nonempty(rest),
{
    assert((seq![x] + rest).drop_first() == rest);
    assert((seq![x] + rest)[0] == x);
}

/// The container ids in the output of `docker ps -q`: its non-empty lines.
pub fn container_ids(output: &str) -> (res: Vec<String>)
    ensures
        strs(res@) == ids_of(output@),
{
    let ghost s = output@;
    let cs = chars_of(output);
    let n = cs.len();
    let mut res: Vec<String> = Vec::new();
    let mut p: usize = 0;
    assert(s.skip(0) == s);
    while p < n
        invariant
            p <= n,
            n == s.len(),
            cs@ == s,
            s == output@,
            strs(res@) + ids_of(s.skip(p as int)) == ids_of(s),
        decreases n - p,
    {
        let mut q: usize = p;
        while q < n && cs[q] != '\n'
            invariant
                p <= q <= n,
                n == s.len(),
                cs@ == s,
                line_end(s.skip(p as int)) == (q - p) + line_end(s.skip(q as int)),
            decreases n - q,
        {
            assert(s.skip(q as int)[0] == s[q as int]);
            assert(s.skip(q as int).drop_first() == s.skip(q + 1));
            q = q + 1;
        }
        let ghost rest = s.skip(p as int);
        let ghost k = line_end(rest);
        let mut e: usize = q;
        if q < n {
            assert(s.skip(q as int)[0] == s[q as int]);
            assert(k == q - p);
            if e > p && cs[e - 1] == '\r' {
                e = e - 1;
            }
            assert(rest.take(k as int) == s.subrange(p as int, q as int));
            assert(strip_cr(rest.take(k as int)) == s.subrange(p as int, e as int));
            assert(rest.skip(k as int + 1) == s.skip(q + 1));
            assert(lines_of(rest) == seq![s.subrange(p as int, e as int)] + lines_of(s.skip(q + 1)));
            proof {
                lemma_keep_nonempty_cons(s.subrange(p as int, e as int), lines_of(s.skip(q + 1)));
            }
        } else {
            assert(s.skip(q as int).len() == 0);
            assert(rest == s.subrange(p as int, q as int));
            assert(lines_of(rest) == seq![rest]);
            assert(s.skip(n as int) == Seq::<char>::empty());
            assert(lines_of(s.skip(q as int)) == Seq::<Seq<char>>::empty());
            assert(lines_of(rest) == seq![s.subrange(p as int, e as int)] + lines_of(s.skip(q as int)));
            proof {
                lemma_keep_nonempty_cons(s.subrange(p as int, e as int), lines_of(s.skip(q as int)));
            }
        }
        if e > p {
            let id = output.substring_char(p, e).to_owned();
            res.push(id);
        }
        if q < n {
            p = q + 1;
        } else {
            p = q;
        }
    }
    assert(s.skip(n as int) == Seq::<char>::empty());
    assert(strs(res@) + Seq::<Seq<char>>::empty() == strs(res@));
    res
}


/// Every line that `str::lines` yields holds no line feed.
proof fn lemma_lines_hold_no_line_feed(s: Seq<char>)
    ensures
        forall|k: int, j: int|
            0 <= k < lines_of(s).len() && 0 <= j < lines_of(s)[k].len() ==> lines_of(s)[k][j]
                != '\n',
    decreases s.len(),
{
    if s.len() > 0 {
        lemma_line_end_facts(s);
        if line_end(s) < s.len() {
            let k0 = line_end(s) as int;
            lemma_lines_hold_no_line_feed(s.skip(k0 + 1));
            let first = strip_cr(s.take(k0));
            let rest = lines_of(s.skip(k0 + 1));
            assert forall|k: int, j: int|
                0 <= k < lines_of(s).len() && 0 <= j < lines_of(s)[k].len() implies lines_of(
                s,
            )[k][j] != '\n' by {
                if k == 0 {
                    assert(lines_of(s)[0] == first);
                    assert(first[j] == s[j]);
                } else {
                    assert(lines_of(s)[k] == rest[k - 1]);
                }
            }
        }
    }
}

proof fn lemma_line_end_facts(s: Seq<char>)
    ensures
        line_end(s) <= s.len(),
        forall|j: int| 0 <= j < line_end(s) ==> s[j] != '\n',
    decreases s.len(),
{
    if s.len() > 0 && s[0] != '\n' {
        lemma_line_end_facts(s.drop_first());
        assert forall|j: int| 0 <= j < line_end(s) implies s[j] != '\n' by {
            if j > 0 {
                assert(s[j] == s.drop_first()[j - 1]);
            }
        }
    }
}

/// Each container id taken from `docker ps -q` is a non-empty piece of a
/// single line.
pub proof fn law_ids_are_nonempty_lines(output: Seq<char>)
    ensures
        forall|k: int|
            0 <= k < ids_of(output).len() ==> #[trigger] ids_of(output)[k].len() > 0 && !ids_of(
                output,
            )[k].contains('\n'),
{
    lemma_lines_hold_no_line_feed(output);
    lemma_keep_nonempty_members(lines_of(output));
}

proof fn lemma_keep_nonempty_members(ls: Seq<Seq<char>>)
    ensures
        forall|k: int|
            0 <= k < keep_nonempty(ls).len() ==> #[trigger] keep_nonempty(ls)[k].len() > 0 && exists|
                m: int,
            |
                0 <= m < ls.len() && ls[m] == keep_nonempty(ls)[k],
    decreases ls.len(),
{
    if ls.len() > 0 {
        let tail = ls.drop_first();
        lemma_keep_nonempty_members(tail);
        let head: Seq<Seq<char>> = if ls[0].len() > 0 {
            seq![ls[0]]
        } else {
            Seq::empty()
        };
        let rest = keep_nonempty(tail);
        assert(keep_nonempty(ls) == head + rest);
        assert forall|k: int| 0 <= k < keep_nonempty(ls).len() implies #[trigger] keep_nonempty(
            ls,
        )[k].len() > 0 && exists|m: int| 0 <= m < ls.len() && ls[m] == keep_nonempty(ls)[k] by {
            if k < head.len() {
                assert(keep_nonempty(ls)[k] == ls[0]);
            } else {
                let r = k - head.len();
                assert(keep_nonempty(ls)[k] == rest[r]);
                assert(rest[r].len() > 0);
                let m = choose|m: int| 0 <= m < tail.len() && tail[m] == rest[r];
                assert(ls[m + 1] == tail[m]);
            }
        }
    }
}


proof fn lemma_line_end_of_line(l: Seq<char>, rest: Seq<char>)
    requires
        !l.contains('\n'),
    ensures
        line_end(l + rest) == l.len() + (if rest.len() > 0 && rest[0] == '\n' {
            0int
        } else {
            line_end(rest) as int
        }),
    decreases l.len(),
{
    if l.len() == 0 {
        assert(l + rest == rest);
    } else {
        assert(l[0] != '\n');
        assert((l + rest)[0] == l[0]);
        assert((l + rest).drop_first() == l.drop_first() + rest);
        assert(!l.drop_first().contains('\n')) by {
            if l.drop_first().contains('\n') {
                let j = choose|j: int| 0 <= j < l.drop_first().len() && l.drop_first()[j] == '\n';
                assert(l[j + 1] == '\n');
            }
        }
        lemma_line_end_of_line(l.drop_first(), rest);
    }
}

/// The ids are read line by line, each non-empty line whole: no output has
/// an id; a last line without a line feed is one id; a line ended by a line
/// feed gives itself as one id (without a carriage return just before the line
/// feed), or nothing when it is empty, and the ids of what follows come after.
pub proof fn law_ids_line_by_line(l: Seq<char>, rest: Seq<char>)
    requires
        !l.contains('\n'),
    ensures
        ids_of(Seq::empty()) == Seq::<Seq<char>>::empty(),
        l.len() > 0 ==> ids_of(l) == seq![l],
        ids_of(l + seq!['\n'] + rest) == (if l.len() > 0 && l.last() == '\r' {
            if l.len() > 1 {
                seq![l.drop_last()]
            } else {
                Seq::empty()
            }
        } else if l.len() > 0 {
            seq![l]
        } else {
            Seq::empty()
        }) + ids_of(rest),
{
    assert(keep_nonempty(Seq::<Seq<char>>::empty()) == Seq::<Seq<char>>::empty());
    lemma_line_end_of_line(l, Seq::empty());
    assert(l + Seq::<char>::empty() == l);
    if l.len() > 0 {
        assert(lines_of(l) == seq![l]);
        lemma_keep_nonempty_cons(l, Seq::empty());
        assert(seq![l] + Seq::<Seq<char>>::empty() == seq![l]);
    }
    let s = l + seq!['\n'] + rest;
    assert(s == l + (seq!['\n'] + rest));
    lemma_line_end_of_line(l, seq!['\n'] + rest);
    assert(s.take(l.len() as int) == l);
    assert(s.skip(l.len() as int + 1) == rest);
    assert(lines_of(s) == seq![strip_cr(l)] + lines_of(rest));
    lemma_keep_nonempty_cons(strip_cr(l), lines_of(rest));
}


proof fn lemma_strip_leading_skips(s: Seq<char>, c: char) -> (k: int)
    ensures
        0 <= k <= s.len(),
        strip_leading(s, c) == s.skip(k),
        forall|j: int| 0 <= j < k ==> s[j] == c,
        k == s.len() || s[k] != c,
    decreases s.len(),
{
    if s.len() > 0 && s[0] == c {
        let t = s.drop_first();
        let k = lemma_strip_leading_skips(t, c);
        assert(t.skip(k) == s.skip(k + 1));
        assert forall|j: int| 0 <= j < k + 1 implies s[j] == c by {
            if j > 0 {
                assert(s[j] == t[j - 1]);
            }
        }
        if k + 1 < s.len() {
            assert(s[k + 1] == t[k]);
        }
        k + 1
    } else {
        assert(s.skip(0) == s);
        0
    }
}

/// A `docker inspect` entry is read as a dev container exactly when its
/// `Config.Labels["devcontainer.config_file"]` is a JSON string. The container
/// then takes that string as its configuration file; the string in
/// `Config.Labels["devcontainer.local_folder"]`, whatever its text, as its
/// local folder, and no local folder where that member is no string; and as
/// its name the string in `Name` without the `/`s it starts with (empty where
/// `Name` is no string).
pub proof fn law_entry_fields(item: Json)
    ensures
        container_of(item) is Some <==> member(
            member(member(item, "Config"@), "Labels"@),
            "devcontainer.config_file"@,
        ) is Str,
        container_of(item) matches Some(c) ==> ((member(
            member(member(item, "Config"@), "Labels"@),
            "devcontainer.config_file"@,
        ) matches Json::Str(f) ==> c.config_file == f@) && (member(
            member(member(item, "Config"@), "Labels"@),
            "devcontainer.local_folder"@,
        ) matches Json::Str(f) ==> c.local_folder == Some(f@)) && (!(member(
            member(member(item, "Config"@), "Labels"@),
            "devcontainer.local_folder"@,
        ) is Str) ==> c.local_folder is None) && (member(item, "Name"@) matches Json::Str(n)
            ==> (c.name.len() <= n@.len() && n@.skip(n@.len() - c.name.len()) == c.name && (
        forall|j: int| 0 <= j < n@.len() - c.name.len() ==> n@[j] == '/') && (c.name.len() == 0
            || c.name[0] != '/'))) && (!(member(
            item,
            "Name"@,
        ) is Str) ==> c.name.len() == 0)),
{
    if container_of(item) is Some {
        let c = container_of(item)->0;
        let labels = member(member(item, "Config"@), "Labels"@);
        assert(labels == labels_of(item));
        match member(item, "Name"@) {
            Json::Str(n) => {
                let k = lemma_strip_leading_skips(n@, '/');
                assert(c.name == n@.skip(k));
                if k < n@.len() {
                    assert(c.name[0] == n@[k]);
                }
            },
            _ => {
                assert(c.name == strip_leading(Seq::<char>::empty(), '/'));
                assert(c.name.len() == 0);
            },
        }
    }
}


/// The dev containers of a `docker inspect` document are read entry by
/// entry, in order: one for each entry that describes one, none for the others.
pub proof fn law_inspect_keeps_entry_order(items: Seq<Json>)
    ensures
        containers_of(items) == items.filter(|j: Json| container_of(j) is Some).map_values(
            |j: Json| container_of(j)->0,
        ),
    decreases items.len(),
{
    reveal_with_fuel(Seq::<Json>::filter, 1);
    if items.len() > 0 {
        law_inspect_keeps_entry_order(items.drop_last());
        let sub = items.drop_last().filter(|j: Json| container_of(j) is Some);
        if container_of(items.last()) is Some {
            assert(sub.push(items.last()).map_values(|j: Json| container_of(j)->0) == sub.map_values(
                |j: Json| container_of(j)->0,
            ).push(container_of(items.last())->0));
        }
    }
}

} // verus!
