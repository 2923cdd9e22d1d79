//! Host lists and word lists, read line by line.

use vstd::prelude::*;
use crate::address::Host;
use crate::address::host_listed;
use crate::address::host_parse;
use crate::address::HostModel;
use crate::address::listed;
use crate::address::parse_host;
use crate::text::holds_text;
use crate::text::texts;
use crate::text::with_item;

verus! {

/// The views of a list of hosts.
pub open spec fn hosts_view(hosts: Seq<Host>) -> Seq<HostModel> {
    hosts.map_values(|host: Host| host@)
}

/// The hosts that a sequence of lines names: one for each line that is a
/// host, in the order in which each first appears. A line that is no host is
/// passed over.
pub open spec fn hosts_of(lines: Seq<Seq<char>>) -> Seq<HostModel>
    decreases lines.len(),
{
    if lines.len() == 0 {
        Seq::empty()
    } else {
        let before = hosts_of(lines.drop_last());
        match host_parse(lines.last()) {
            Some(host) => if before.contains(host) {
                before
            } else {
                before.push(host)
            },
            None => before,
        }
    }
}

/// The distinct lines of a sequence, in the order in which each first appears.
pub open spec fn words_of(lines: Seq<Seq<char>>) -> Seq<Seq<char>>
    decreases lines.len(),
{
    if lines.len() == 0 {
        Seq::empty()
    } else {
        with_item(words_of(lines.drop_last()), lines.last())
    }
}

/// Membership by view is membership in the view.
proof fn lemma_listed(hosts: Seq<Host>, host: HostModel)
    ensures
        host_listed(hosts, host) == hosts_view(hosts).contains(host),
{
    if host_listed(hosts, host) {
        let i = choose|i: int| 0 <= i < hosts.len() && (#[trigger] hosts[i])@ == host;
        assert(hosts_view(hosts)[i] == host);
    }
    if hosts_view(hosts).contains(host) {
        let i = choose|i: int| 0 <= i < hosts_view(hosts).len() && hosts_view(hosts)[i] == host;
        assert(hosts[i]@ == host);
    }
}

/// Reads a host list from the lines of a file.
pub fn read_hosts(lines: &Vec<String>) -> (hosts: Vec<Host>)
    ensures
        hosts_view(hosts@) == hosts_of(texts(lines@)),
{
    let mut hosts: Vec<Host> = Vec::new();
    let mut i: usize = 0;
    proof {
        assert(texts(lines@).take(0) =~= Seq::empty());
        assert(hosts_view(hosts@) =~= Seq::empty());
    }
    while i < lines.len()
        invariant
            i <= lines.len(),
            hosts_view(hosts@) == hosts_of(texts(lines@).take(i as int)),
        decreases lines.len() - i,
    {
        proof {
            let all = texts(lines@);
            assert(all.take(i + 1).drop_last() =~= all.take(i as int));
            assert(all.take(i + 1).last() == lines@[i as int]@);
        }
        if let Some(host) = parse_host(lines[i].as_str()) {
            proof {
                lemma_listed(hosts@, host@);
            }
            if !listed(&hosts, &host) {
                let ghost before = hosts_view(hosts@);
                hosts.push(host);
                proof {
                    assert(hosts_view(hosts@) =~= before.push(host@));
                }
            }
        }
        i += 1;
    }
    proof {
        assert(texts(lines@).take(lines.len() as int) =~= texts(lines@));
    }
    hosts
}

/// Reads a word list from the lines of a file: every line is a word.
pub fn read_words(lines: &Vec<String>) -> (words: Vec<String>)
    ensures
        texts(words@) == words_of(texts(lines@)),
{
    let mut words: Vec<String> = Vec::new();
    let mut i: usize = 0;
    proof {
        assert(texts(lines@).take(0) =~= Seq::empty());
        assert(texts(words@) =~= Seq::empty());
    }
    while i < lines.len()
        invariant
            i <= lines.len(),
            texts(words@) == words_of(texts(lines@).take(i as int)),
        decreases lines.len() - i,
    {
        proof {
            let all = texts(lines@);
            assert(all.take(i + 1).drop_last() =~= all.take(i as int));
            assert(all.take(i + 1).last() == lines@[i as int]@);
        }
        if !holds_text(&words, lines[i].as_str()) {
            let ghost before = texts(words@);
            words.push(lines[i].clone());
            proof {
                assert(texts(words@) =~= before.push(lines@[i as int]@));
            }
        }
        i += 1;
    }
    proof {
        assert(texts(lines@).take(lines.len() as int) =~= texts(lines@));
    }
    words
}

} // verus!
