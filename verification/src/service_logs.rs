//! The logs of an environment's services: the last lines of a local
//! service's log, the arguments that ask `docker` for a container's log,
//! and the connection settings a local environment prefers.

use vstd::prelude::*;
use crate::chars::{decimal, decimal_string};
use crate::docker::{lemma_first_newline, lines_of};
use crate::environment::{join_strings, joined, EnvironmentConfig, LocalConfig};
use crate::model::TestHarnessError;
use crate::text::{to_chars, views};

verus! {

/// The last `n` of a list of lines, all of them when there are fewer.
pub open spec fn last_n(lines: Seq<Seq<char>>, n: nat) -> Seq<Seq<char>> {
    if n >= lines.len() {
        lines
    } else {
        lines.subrange(lines.len() - n, lines.len() as int)
    }
}

/// What a service's log shows: the whole log, or its last `n` lines
/// joined by `\n`.
pub open spec fn log_tail(content: Seq<char>, lines: Option<usize>) -> Seq<char> {
    match lines {
        None => content,
        Some(n) => joined(last_n(lines_of(content), n as nat), "\n"@),
    }
}

/// The lines of a text, as `lines_of` describes.
pub fn text_lines(s: &str) -> (r: Vec<String>)
    ensures
        views(r@) == lines_of(s@),
{
    let v = to_chars(s);
    let mut r: Vec<String> = Vec::new();
    let mut start: usize = 0;
    assert(v@.subrange(0, v.len() as int) =~= s@);
    while start < v.len()
        invariant
            start <= v.len(),
            v@ == s@,
            lines_of(s@) == views(r@) + lines_of(v@.subrange(start as int, v.len() as int)),
        decreases v.len() - start,
    {
        let ghost rest = v@.subrange(start as int, v.len() as int);
        let mut e: usize = start;
        while e < v.len() && v[e] != '\n'
            invariant
                start <= e <= v.len(),
                rest == v@.subrange(start as int, v.len() as int),
                forall|j: int| 0 <= j < e - start ==> rest[j] != '\n',
            decreases v.len() - e,
        {
            assert(rest[e - start] == v@[e as int]);
            e += 1;
        }
        proof {
            if e < v.len() {
                assert(rest[e - start] == v@[e as int]);
            }
            lemma_first_newline(rest, e - start);
        }
        let mut line_end = e;
        if line_end > start && e < v.len() && v[line_end - 1] == '\r' {
            line_end = line_end - 1;
        }
        let ghost line = v@.subrange(start as int, line_end as int);
        let next = if e < v.len() {
            e + 1
        } else {
            e
        };
        proof {
            let first = rest.subrange(0, e - start);
            if e < v.len() {
                if first.len() > 0 && first.last() == '\r' {
                    assert(first.drop_last() =~= line);
                } else {
                    assert(first =~= line);
                }
                assert(rest.subrange(e - start + 1, rest.len() as int) =~= v@.subrange(next as int, v.len() as int));
                assert(lines_of(rest) == seq![line] + lines_of(v@.subrange(next as int, v.len() as int)));
            } else {
                assert(rest =~= line);
                assert(lines_of(rest) == seq![line]);
                assert(v@.subrange(next as int, v.len() as int) =~= Seq::<char>::empty());
                assert(lines_of(v@.subrange(next as int, v.len() as int)) == Seq::<Seq<char>>::empty());
            }
        }
        let ghost before = views(r@);
        r.push(s.substring_char(start, line_end).to_owned());
        assert(views(r@) =~= before.push(line));
        assert(before + lines_of(rest) =~= views(r@) + lines_of(v@.subrange(next as int, v.len() as int)));
        start = next;
    }
    proof {
        assert(v@.subrange(start as int, v.len() as int) =~= Seq::<char>::empty());
        assert(views(r@) + Seq::<Seq<char>>::empty() =~= views(r@));
    }
    r
}

/// What a local service's log shows, as `log_tail` describes: with a line
/// count, the last lines of the log.
pub fn tail_lines(content: &str, lines: Option<usize>) -> (r: String)
    ensures
        r@ == log_tail(content@, lines),
{
    match lines {
        None => content.to_owned(),
        Some(n) => {
            let all = text_lines(content);
            let skip: usize = if n >= all.len() {
                0
            } else {
                all.len() - n
            };
            let mut kept: Vec<String> = Vec::new();
            let mut i: usize = skip;
            while i < all.len()
                invariant
                    skip <= i <= all.len(),
                    views(kept@) == views(all@).subrange(skip as int, i as int),
                decreases all.len() - i,
            {
                let ghost before = views(kept@);
                let line = all[i].clone();
                assert(line@ == all@[i as int]@);
                kept.push(line);
                assert(views(kept@) =~= before.push(all@[i as int]@));
                assert(views(kept@) =~= views(all@).subrange(skip as int, i + 1));
                i += 1;
            }
            proof {
                let ls = lines_of(content@);
                if n as nat >= ls.len() {
                    assert(views(all@).subrange(0, all.len() as int) =~= ls);
                }
            }
            join_strings(&kept, "\n")
        },
    }
}

/// The arguments of `docker` that print a container's log: `logs`, the
/// container, and with a line count `--tail` and the count.
pub open spec fn docker_logs_args_of(container_id: Seq<char>, lines: Option<usize>) -> Seq<Seq<char>> {
    seq!["logs"@, container_id] + match lines {
        Some(n) => seq!["--tail"@, decimal(n as nat)],
        None => Seq::empty(),
    }
}

/// The arguments of `docker` that print a container's log, as
/// `docker_logs_args_of` describes.
pub fn docker_logs_args(container_id: &str, lines: Option<usize>) -> (r: Vec<String>)
    ensures
        views(r@) == docker_logs_args_of(container_id@, lines),
{
    let mut r: Vec<String> = Vec::new();
    r.push("logs".to_owned());
    r.push(container_id.to_owned());
    match lines {
        Some(n) => {
            r.push("--tail".to_owned());
            r.push(decimal_string(n as u64));
            assert(views(r@) =~= docker_logs_args_of(container_id@, lines));
        },
        None => {
            assert(views(r@) =~= docker_logs_args_of(container_id@, lines));
        },
    }
    r
}

/// The error for a service the environment does not know.
pub fn service_not_found_error(name: &str) -> (e: TestHarnessError)
    ensures
        e matches TestHarnessError::EnvironmentError(m) && m@ == "Service "@ + name@ + " not found"@,
{
    let mut m = "Service ".to_owned();
    m.append(name);
    m.append(" not found");
    TestHarnessError::EnvironmentError(m)
}

/// The database a local environment connects to: the one of its local
/// settings, else the environment's.
pub fn local_database_url<'a>(local: &'a LocalConfig, config: &'a EnvironmentConfig) -> (r: Option<&'a str>)
    ensures
        match local.database_url {
            Some(u) => r matches Some(x) && x@ == u@,
            None => match config.database_url {
                Some(u) => r matches Some(x) && x@ == u@,
                None => r is None,
            },
        },
{
    match &local.database_url {
        Some(u) => Some(u.as_str()),
        None => match &config.database_url {
            Some(u) => Some(u.as_str()),
            None => None,
        },
    }
}

/// The Redis server a local environment connects to: the one of its local
/// settings, else the environment's.
pub fn local_redis_url<'a>(local: &'a LocalConfig, config: &'a EnvironmentConfig) -> (r: Option<&'a str>)
    ensures
        match local.redis_url {
            Some(u) => r matches Some(x) && x@ == u@,
            None => match config.redis_url {
                Some(u) => r matches Some(x) && x@ == u@,
                None => r is None,
            },
        },
{
    match &local.redis_url {
        Some(u) => Some(u.as_str()),
        None => match &config.redis_url {
            Some(u) => Some(u.as_str()),
            None => None,
        },
    }
}

} // verus!
