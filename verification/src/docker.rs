//! Docker Compose: the arguments of the commands that bring services up,
//! list them and take them down, and reading what `docker` prints back.

use vstd::prelude::*;
use crate::chars::{first_index_of, trim, trim_range};
use crate::environment::DockerConfig;
use crate::text::{to_chars, views};

verus! {

/// The arguments that pick the compose file and, when one is named, the
/// project: `-f <file>`, then `-p <project>`.
pub open spec fn compose_prefix(file: Seq<char>, project: Option<Seq<char>>) -> Seq<Seq<char>> {
    seq!["-f"@, file] + match project {
        Some(p) => seq!["-p"@, p],
        None => Seq::empty(),
    }
}

/// An optional string by its characters.
pub open spec fn opt_chars(s: Option<String>) -> Option<Seq<char>> {
    match s {
        Some(x) => Some(x@),
        None => None,
    }
}

/// The arguments of `docker-compose` that bring the services up, detached:
/// the prefix, `--env-file <file>` when one is set, `up -d`, then the
/// services chosen, if any (none means all). `None` without a compose file.
pub open spec fn compose_up_args(c: DockerConfig) -> Option<Seq<Seq<char>>> {
    match c.compose_file {
        Some(f) => Some(
            compose_prefix(f@, opt_chars(c.project_name)) + match c.env_file {
                Some(e) => seq!["--env-file"@, e@],
                None => Seq::empty(),
            } + seq!["up"@, "-d"@] + views(c.services@),
        ),
        None => None,
    }
}

/// The arguments of `docker-compose` that take the services down.
pub open spec fn compose_down_args(c: DockerConfig) -> Option<Seq<Seq<char>>> {
    match c.compose_file {
        Some(f) => Some(compose_prefix(f@, opt_chars(c.project_name)) + seq!["down"@]),
        None => None,
    }
}

/// The arguments of `docker-compose` that list the identifiers of the
/// services' containers.
pub open spec fn compose_ps_args(c: DockerConfig) -> Option<Seq<Seq<char>>> {
    match c.compose_file {
        Some(f) => Some(compose_prefix(f@, opt_chars(c.project_name)) + seq!["ps"@, "-q"@]),
        None => None,
    }
}

fn push_str(v: &mut Vec<String>, s: &str)
    ensures
        views(final(v)@) == views(old(v)@).push(s@),
{
    let ghost before = v@;
    v.push(s.to_owned());
    assert(views(v@) =~= views(before).push(s@));
}

fn prefix_args(file: &String, project: &Option<String>) -> (r: Vec<String>)
    ensures
        views(r@) == compose_prefix(file@, opt_chars(*project)),
{
    proof {
        reveal_strlit("-f");
        reveal_strlit("-p");
    }
    let mut r: Vec<String> = Vec::new();
    push_str(&mut r, "-f");
    push_str(&mut r, file.as_str());
    if let Some(p) = project {
        push_str(&mut r, "-p");
        push_str(&mut r, p.as_str());
    }
    assert(views(r@) =~= compose_prefix(file@, opt_chars(*project)));
    r
}

/// The arguments that bring the services up, as `compose_up_args` describes.
pub fn compose_up_command(c: &DockerConfig) -> (r: Option<Vec<String>>)
    ensures
        match r {
            Some(a) => compose_up_args(*c) == Some(views(a@)),
            None => compose_up_args(*c) is None,
        },
{
    proof {
        reveal_strlit("--env-file");
        reveal_strlit("up");
        reveal_strlit("-d");
    }
    match &c.compose_file {
        None => None,
        Some(f) => {
            let mut r = prefix_args(f, &c.project_name);
            let ghost p = views(r@);
            if let Some(e) = &c.env_file {
                push_str(&mut r, "--env-file");
                push_str(&mut r, e.as_str());
            }
            let ghost q = views(r@);
            push_str(&mut r, "up");
            push_str(&mut r, "-d");
            let ghost u = views(r@);
            let mut i: usize = 0;
            while i < c.services.len()
                invariant
                    i <= c.services.len(),
                    views(r@) == u + views(c.services@).subrange(0, i as int),
                decreases c.services.len() - i,
            {
                push_str(&mut r, c.services[i].as_str());
                assert(views(r@) =~= u + views(c.services@).subrange(0, i + 1));
                i += 1;
            }
            assert(views(c.services@).subrange(0, i as int) =~= views(c.services@));
            assert(q == p + match c.env_file {
                Some(e) => seq!["--env-file"@, e@],
                None => Seq::empty(),
            });
            assert(u =~= q + seq!["up"@, "-d"@]);
            Some(r)
        },
    }
}

/// The arguments that take the services down, as `compose_down_args`
/// describes.
pub fn compose_down_command(c: &DockerConfig) -> (r: Option<Vec<String>>)
    ensures
        match r {
            Some(a) => compose_down_args(*c) == Some(views(a@)),
            None => compose_down_args(*c) is None,
        },
{
    match &c.compose_file {
        None => None,
        Some(f) => {
            let mut r = prefix_args(f, &c.project_name);
            let ghost p = views(r@);
            push_str(&mut r, "down");
            assert(views(r@) =~= p + seq!["down"@]);
            Some(r)
        },
    }
}

/// The arguments that list the containers, as `compose_ps_args` describes.
pub fn compose_ps_command(c: &DockerConfig) -> (r: Option<Vec<String>>)
    ensures
        match r {
            Some(a) => compose_ps_args(*c) == Some(views(a@)),
            None => compose_ps_args(*c) is None,
        },
{
    match &c.compose_file {
        None => None,
        Some(f) => {
            let mut r = prefix_args(f, &c.project_name);
            let ghost p = views(r@);
            push_str(&mut r, "ps");
            push_str(&mut r, "-q");
            assert(views(r@) =~= p + seq!["ps"@, "-q"@]);
            Some(r)
        },
    }
}

/// The lines of a text as `str::lines` gives them: split at each `\n`,
/// without a final empty line, each line without the `\r` before its `\n`.
pub open spec fn lines_of(s: Seq<char>) -> Seq<Seq<char>>
    decreases s.len(),
{
    if s.len() == 0 {
        Seq::empty()
    } else {
        let i = first_index_of(s, '\n');
        if i < 0 {
            seq![s]
        } else {
            let line = s.subrange(0, i);
            let line = if line.len() > 0 && line.last() == '\r' {
                line.drop_last()
            } else {
                line
            };
            proof {
                lemma_first_index_bound(s, '\n');
            }
            seq![line] + lines_of(s.subrange(i + 1, s.len() as int))
        }
    }
}

/// The first position of a character lies within the text.
pub proof fn lemma_first_index_bound(s: Seq<char>, c: char)
    ensures
        first_index_of(s, c) < s.len(),
    decreases s.len(),
{
    if s.len() > 0 {
        lemma_first_index_bound(s.drop_first(), c);
    }
}

/// The identifiers that `docker-compose ps -q` prints: each non-empty line,
/// trimmed.
pub open spec fn container_ids_of(output: Seq<char>) -> Seq<Seq<char>> {
    lines_of(output).filter(|l: Seq<char>| l.len() > 0).map_values(|l: Seq<char>| trim(l))
}

/// The name that `docker inspect --format {{.Name}}` prints: trimmed, and
/// without its leading slashes.
pub open spec fn container_name_of(output: Seq<char>) -> Seq<char> {
    strip_leading(trim(output), '/')
}

/// `s` without the copies of `c` at its start.
pub open spec fn strip_leading(s: Seq<char>, c: char) -> Seq<char>
    decreases s.len(),
{
    if s.len() > 0 && s[0] == c {
        strip_leading(s.drop_first(), c)
    } else {
        s
    }
}

/// The first newline of `s` is at `i` when none comes before it and `i`
/// holds one or is the end.
pub(crate) proof fn lemma_first_newline(s: Seq<char>, i: int)
    requires
        0 <= i <= s.len(),
        forall|j: int| 0 <= j < i ==> s[j] != '\n',
        i == s.len() || s[i] == '\n',
    ensures
        first_index_of(s, '\n') == if i == s.len() { -1 } else { i },
    decreases i,
{
    if i > 0 {
        assert forall|j: int| 0 <= j < i - 1 implies s.drop_first()[j] != '\n' by {
            assert(s.drop_first()[j] == s[j + 1]);
        }
        if i < s.len() {
            assert(s.drop_first()[i - 1] == s[i]);
        }
        lemma_first_newline(s.drop_first(), i - 1);
    }
}

/// The container identifiers of `docker-compose ps -q` output, as
/// `container_ids_of` describes.
pub fn container_ids(output: &str) -> (r: Vec<String>)
    ensures
        views(r@) == container_ids_of(output@),
{
    let v = to_chars(output);
    let mut r: Vec<String> = Vec::new();
    let mut start: usize = 0;
    let ghost keep = |l: Seq<char>| l.len() > 0;
    let ghost tr = |l: Seq<char>| trim(l);
    assert(v@.subrange(0, v.len() as int) =~= output@);
    while start < v.len()
        invariant
            start <= v.len(),
            v@ == output@,
            keep == (|l: Seq<char>| l.len() > 0),
            tr == (|l: Seq<char>| trim(l)),
            container_ids_of(output@) == views(r@) + lines_of(v@.subrange(start as int, v.len() as int)).filter(keep).map_values(tr),
        decreases v.len() - start,
    {
        let ghost rest = v@.subrange(start as int, v.len() as int);
        let mut e: usize = start;
        while e < v.len() && v[e] != '\n'
            invariant
                start <= e <= v.len(),
                rest == v@.subrange(start as int, v.len() as int),
                forall|j: int| 0 <= j < e - start ==> rest[j] != '\n',
            decreases v.len() - e,
        {
            assert(rest[e - start] == v@[e as int]);
            e += 1;
        }
        proof {
            if e < v.len() {
                assert(rest[e - start] == v@[e as int]);
            }
            lemma_first_newline(rest, e - start);
        }
        let mut line_end = e;
        if line_end > start && e < v.len() && v[line_end - 1] == '\r' {
            line_end = line_end - 1;
        }
        let ghost line = v@.subrange(start as int, line_end as int);
        let next = if e < v.len() {
            e + 1
        } else {
            e
        };
        proof {
            let first = rest.subrange(0, e - start);
            if e < v.len() {
                if first.len() > 0 && first.last() == '\r' {
                    assert(first.drop_last() =~= line);
                } else {
                    assert(first =~= line);
                }
                assert(rest.subrange(e - start + 1, rest.len() as int) =~= v@.subrange(next as int, v.len() as int));
                assert(lines_of(rest) == seq![line] + lines_of(v@.subrange(next as int, v.len() as int)));
            } else {
                assert(rest =~= line);
                assert(lines_of(rest) == seq![line]);
                assert(v@.subrange(next as int, v.len() as int) =~= Seq::<char>::empty());
                assert(lines_of(v@.subrange(next as int, v.len() as int)) == Seq::<Seq<char>>::empty());
                assert(seq![line] =~= seq![line] + Seq::<Seq<char>>::empty());
            }
            let later = lines_of(v@.subrange(next as int, v.len() as int));
            Seq::filter_distributes_over_add(seq![line], later, keep);
            assert((seq![line] + later).filter(keep).map_values(tr) =~= seq![line].filter(keep).map_values(tr)
                + later.filter(keep).map_values(tr));
            reveal_with_fuel(Seq::filter, 2);
            assert(seq![line].drop_last() =~= Seq::<Seq<char>>::empty());
            assert(seq![line].last() == line);
            assert(Seq::<Seq<char>>::empty().filter(keep) =~= Seq::<Seq<char>>::empty());
            if line.len() > 0 {
                assert(keep(line));
                assert(seq![line].filter(keep) == seq![line].drop_last().filter(keep).push(line));
                assert(seq![line].filter(keep) =~= seq![line]);
                assert(seq![line].filter(keep).map_values(tr) =~= seq![trim(line)]);
            } else {
                assert(seq![line].filter(keep) =~= Seq::<Seq<char>>::empty());
                assert(seq![line].filter(keep).map_values(tr) =~= Seq::<Seq<char>>::empty());
            }
        }
        if line_end > start {
            let (a, b) = trim_range(&v, start, line_end);
            let ghost before = r@;
            r.push(output.substring_char(a, b).to_owned());
            assert(views(r@) =~= views(before).push(trim(line)));
        }
        start = next;
    }
    proof {
        assert(v@.subrange(start as int, v.len() as int) =~= Seq::<char>::empty());
        assert(lines_of(Seq::<char>::empty()) == Seq::<Seq<char>>::empty());
        assert(Seq::<Seq<char>>::empty().filter(keep) =~= Seq::<Seq<char>>::empty());
        assert(views(r@) + Seq::<Seq<char>>::empty().filter(keep).map_values(tr) =~= views(r@));
    }
    r
}

/// The container name of `docker inspect` output, as `container_name_of`
/// describes.
pub fn container_name(output: &str) -> (r: String)
    ensures
        r@ == container_name_of(output@),
{
    let v = to_chars(output);
    let (a, b) = trim_range(&v, 0, v.len());
    assert(v@.subrange(0, v.len() as int) =~= output@);
    let mut i = a;
    assert(strip_leading(v@.subrange(a as int, b as int), '/') == strip_leading(v@.subrange(i as int, b as int), '/'));
    while i < b && v[i] == '/'
        invariant
            a <= i <= b <= v.len(),
            strip_leading(v@.subrange(a as int, b as int), '/') == strip_leading(v@.subrange(i as int, b as int), '/'),
        decreases b - i,
    {
        assert(v@.subrange(i as int, b as int).drop_first() =~= v@.subrange(i + 1, b as int));
        i += 1;
    }
    output.substring_char(i, b).to_owned()
}

/// Does the trimmed output say exactly `word`, such as `healthy` or
/// `true`?
pub fn output_says(output: &str, word: &str) -> (b: bool)
    ensures
        b == (trim(output@) == word@),
{
    let v = to_chars(output);
    let (a, e) = trim_range(&v, 0, v.len());
    assert(v@.subrange(0, v.len() as int) =~= output@);
    let t = output.substring_char(a, e);
    crate::kv::eq_str(t, word)
}

} // verus!
