//! Processes reported by the kernel module, and what the service logs of them.

use vstd::prelude::*;
use vstd::string::StrSliceExecFns;
use std::cmp::Ordering;
use crate::order::{UsageKey, key_lt, key_less};
use crate::text::{words, chars_of, word_spans, spans_spell, is_word, spaced, lemma_words_of_spaced};

verus! {

/// A process in a container, as the kernel module reports it.
///
/// `memory_usage` and `cpu_usage` are order keys of the percentages that the module
/// reports as floating-point numbers: a larger key stands for a larger percentage.
#[derive(Debug)]
pub struct Process {
    pub pid: u32,
    pub name: String,
    pub cmd_line: String,
    pub vsz: u64,
    pub rss: u64,
    pub memory_usage: u64,
    pub cpu_usage: u64,
}

/// A process as a mathematical value.
pub struct ProcessView {
    pub pid: u32,
    pub name: Seq<char>,
    pub cmd_line: Seq<char>,
    pub vsz: u64,
    pub rss: u64,
    pub memory_usage: u64,
    pub cpu_usage: u64,
}

impl View for Process {
    type V = ProcessView;

    open spec fn view(&self) -> ProcessView {
        ProcessView {
            pid: self.pid,
            name: self.name@,
            cmd_line: self.cmd_line@,
            vsz: self.vsz,
            rss: self.rss,
            memory_usage: self.memory_usage,
            cpu_usage: self.cpu_usage,
        }
    }
}

impl Clone for Process {
    fn clone(&self) -> (copy: Self)
        ensures
            copy == *self,
    {
        Process {
            pid: self.pid,
            name: self.name.clone(),
            cmd_line: self.cmd_line.clone(),
            vsz: self.vsz,
            rss: self.rss,
            memory_usage: self.memory_usage,
            cpu_usage: self.cpu_usage,
        }
    }
}

/// The sort key of a process: CPU usage first, memory usage second.
pub open spec fn usage_of(p: ProcessView) -> UsageKey {
    (p.cpu_usage, p.memory_usage)
}

/// The flag that precedes a container's id on a command line.
pub open spec fn id_flag() -> Seq<char> {
    seq!['-', 'i', 'd']
}

/// The word after the first `-id` that some word follows, if there is one.
pub open spec fn value_after_id_flag(ws: Seq<Seq<char>>) -> Option<Seq<char>>
    decreases ws.len(),
{
    if ws.len() < 2 {
        None
    } else if ws[0] == id_flag() {
        Some(ws[1])
    } else {
        value_after_id_flag(ws.drop_first())
    }
}

/// The id of the container that runs a command line: the word after the flag `-id`,
/// or `N/A` where there is none.
pub open spec fn container_id_of(cmd_line: Seq<char>) -> Seq<char> {
    match value_after_id_flag(words(cmd_line)) {
        Some(id) => id,
        None => seq!['N', '/', 'A'],
    }
}

/// The order of two usage keys, as `Process::cmp` reports it.
pub open spec fn usage_ordering(a: UsageKey, b: UsageKey) -> Ordering {
    if key_lt(a, b) {
        Ordering::Less
    } else if a == b {
        Ordering::Equal
    } else {
        Ordering::Greater
    }
}

impl Process {
    /// The id of the container that this process runs in, read from its command line:
    /// the word after the first `-id` that another word follows, or `N/A`.
    pub fn get_container_id(&self) -> (id: &str)
        ensures
            id@ == container_id_of(self.cmd_line@),
    {
        let line = self.cmd_line.as_str();
        let chars = chars_of(line);
        let spans = word_spans(&chars);
        let ghost ws = words(self.cmd_line@);
        let count = spans.len();
        let mut i: usize = 0;
        proof {
            assert(ws.skip(0) =~= ws);
        }
        while count > 1 && i < count - 1
            invariant
                chars@ == self.cmd_line@,
                ws == words(self.cmd_line@),
                line@ == self.cmd_line@,
                spans_spell(chars@, spans@, ws),
                count == spans@.len(),
                i <= count,
                value_after_id_flag(ws) == value_after_id_flag(ws.skip(i as int)),
            decreases count - i,
        {
            let (a, b) = spans[i];
            let is_flag = b - a == 3 && chars[a] == '-' && chars[a + 1] == 'i' && chars[a + 2] == 'd';
            proof {
                assert(ws.skip(i as int)[0] == ws[i as int]);
                assert(ws.skip(i as int)[1] == ws[i + 1]);
                assert(chars@.subrange(a as int, b as int) == ws[i as int]);
                let sub = chars@.subrange(a as int, b as int);
                if is_flag {
                    assert(ws[i as int] =~= id_flag());
                    assert(value_after_id_flag(ws.skip(i as int)) == Some(ws[i + 1]));
                } else {
                    assert(ws[i as int] != id_flag()) by {
                        if ws[i as int] == id_flag() {
                            assert(sub.len() == 3);
                            assert(sub[0] == chars@[a as int]);
                            assert(sub[1] == chars@[a + 1]);
                            assert(sub[2] == chars@[a + 2]);
                        }
                    }
                    assert(ws.skip(i as int).drop_first() =~= ws.skip(i + 1));
                }
            }
            if is_flag {
                let (c, d) = spans[i + 1];
                proof {
                    assert(spans@[i + 1] == (c, d));
                    assert(chars@.subrange(c as int, d as int) == ws[i + 1]);
                }
                let found = line.substring_char(c, d);
                return found;
            }
            i = i + 1;
        }
        proof {
            reveal_strlit("N/A");
            assert(ws.skip(i as int).len() < 2);
        }
        "N/A"
    }

    /// Compares two processes by CPU usage, then by memory usage.
    pub fn cmp(&self, other: &Self) -> (order: Ordering)
        ensures
            order == usage_ordering(usage_of(self@), usage_of(other@)),
            (order == Ordering::Less) == (self.cpu_usage < other.cpu_usage || (self.cpu_usage
                == other.cpu_usage && self.memory_usage < other.memory_usage)),
            (order == Ordering::Equal) == (self.cpu_usage == other.cpu_usage && self.memory_usage
                == other.memory_usage),
            (order == Ordering::Greater) == (other.cpu_usage < self.cpu_usage || (self.cpu_usage
                == other.cpu_usage && other.memory_usage < self.memory_usage)),
    {
        let a = (self.cpu_usage, self.memory_usage);
        let b = (other.cpu_usage, other.memory_usage);
        if key_less(a, b) {
            Ordering::Less
        } else if self.cpu_usage == other.cpu_usage && self.memory_usage == other.memory_usage {
            Ordering::Equal
        } else {
            Ordering::Greater
        }
    }

    /// Compares two processes by CPU usage, then by memory usage; the order is total.
    pub fn partial_cmp(&self, other: &Self) -> (order: Option<Ordering>)
        ensures
            order == Some(usage_ordering(usage_of(self@), usage_of(other@))),
    {
        Some(self.cmp(other))
    }
}

/// What the service logs of a process whose container it stops.
#[derive(Debug)]
pub struct LogProcess {
    pub pid: u32,
    pub container_id: String,
    pub name: String,
    pub vsz: u64,
    pub rss: u64,
    pub memory_usage: u64,
    pub cpu_usage: u64,
}

/// A log entry as a mathematical value.
pub struct LogProcessView {
    pub pid: u32,
    pub container_id: Seq<char>,
    pub name: Seq<char>,
    pub vsz: u64,
    pub rss: u64,
    pub memory_usage: u64,
    pub cpu_usage: u64,
}

impl View for LogProcess {
    type V = LogProcessView;

    open spec fn view(&self) -> LogProcessView {
        LogProcessView {
            pid: self.pid,
            container_id: self.container_id@,
            name: self.name@,
            vsz: self.vsz,
            rss: self.rss,
            memory_usage: self.memory_usage,
            cpu_usage: self.cpu_usage,
        }
    }
}

impl Clone for LogProcess {
    fn clone(&self) -> (copy: Self)
        ensures
            copy == *self,
    {
        LogProcess {
            pid: self.pid,
            container_id: self.container_id.clone(),
            name: self.name.clone(),
            vsz: self.vsz,
            rss: self.rss,
            memory_usage: self.memory_usage,
            cpu_usage: self.cpu_usage,
        }
    }
}

/// The log entry of a process: its fields, with the id of its container in place of the
/// command line.
pub open spec fn log_of(p: ProcessView) -> LogProcessView {
    LogProcessView {
        pid: p.pid,
        container_id: container_id_of(p.cmd_line),
        name: p.name,
        vsz: p.vsz,
        rss: p.rss,
        memory_usage: p.memory_usage,
        cpu_usage: p.cpu_usage,
    }
}

/// Builds the log entry of a process.
pub fn log_entry(p: &Process) -> (entry: LogProcess)
    ensures
        entry@ == log_of(p@),
{
    let id = p.get_container_id();
    LogProcess {
        pid: p.pid,
        container_id: id.to_string(),
        name: p.name.clone(),
        vsz: p.vsz,
        rss: p.rss,
        memory_usage: p.memory_usage,
        cpu_usage: p.cpu_usage,
    }
}

/// `Process::cmp` is a total order: swapping the arguments reverses the answer, `Equal`
/// means equal usage, and `Less` is transitive.
pub proof fn lemma_usage_ordering_total(a: UsageKey, b: UsageKey, c: UsageKey)
    ensures
        (usage_ordering(a, b) == Ordering::Less) == (usage_ordering(b, a) == Ordering::Greater),
        (usage_ordering(a, b) == Ordering::Equal) == (a == b),
        usage_ordering(a, b) == Ordering::Less && usage_ordering(b, c) == Ordering::Less
            ==> usage_ordering(a, c) == Ordering::Less,
{
}

/// The usage order of two processes is the lexicographic order of their keys: less CPU
/// comes first whatever the memory; with equal CPU, less memory comes first.
pub proof fn lemma_usage_ordering_lexicographic(p: ProcessView, q: ProcessView)
    ensures
        (usage_ordering(usage_of(p), usage_of(q)) == Ordering::Less) == (p.cpu_usage < q.cpu_usage
            || (p.cpu_usage == q.cpu_usage && p.memory_usage < q.memory_usage)),
        (usage_ordering(usage_of(p), usage_of(q)) == Ordering::Equal) == (p.cpu_usage == q.cpu_usage
            && p.memory_usage == q.memory_usage),
        (usage_ordering(usage_of(p), usage_of(q)) == Ordering::Greater) == (q.cpu_usage < p.cpu_usage
            || (p.cpu_usage == q.cpu_usage && q.memory_usage < p.memory_usage)),
{
}

/// In a list of words, the value of the first `-id` flag that another word follows is that
/// next word, whatever it is.
proof fn lemma_value_after_first_flag(ws: Seq<Seq<char>>, i: int)
    requires
        0 <= i,
        i + 1 < ws.len(),
        ws[i] == seq!['-', 'i', 'd'],
        forall|j: int| 0 <= j < i ==> #[trigger] ws[j] != seq!['-', 'i', 'd'],
    ensures
        value_after_id_flag(ws) == Some(ws[i + 1]),
    decreases i,
{
    if i > 0 {
        let rest = ws.drop_first();
        assert forall|j: int| 0 <= j < i - 1 implies #[trigger] rest[j] != seq!['-', 'i', 'd'] by {
            assert(rest[j] == ws[j + 1]);
        }
        assert(rest[i - 1] == ws[i]);
        lemma_value_after_first_flag(rest, i - 1);
        assert(ws[0] != seq!['-', 'i', 'd']);
    } else {
        assert(id_flag() =~= seq!['-', 'i', 'd']);
    }
}

/// A list of words in which no `-id` flag is followed by a word has no value for the flag.
proof fn lemma_no_value_without_flag(ws: Seq<Seq<char>>)
    requires
        forall|j: int| 0 <= j && j + 1 < ws.len() ==> #[trigger] ws[j] != seq!['-', 'i', 'd'],
    ensures
        value_after_id_flag(ws) is None,
    decreases ws.len(),
{
    if ws.len() >= 2 {
        let rest = ws.drop_first();
        assert forall|j: int| 0 <= j && j + 1 < rest.len() implies #[trigger] rest[j] != seq!['-', 'i', 'd'] by {
            assert(rest[j] == ws[j + 1]);
        }
        lemma_no_value_without_flag(rest);
        assert(ws[0] != seq!['-', 'i', 'd']);
    }
}

/// On a command line of words separated by spaces, the container id is the word right
/// after the first `-id` that another word follows, whatever its length or content.
pub proof fn lemma_container_id_is_word_after_flag(ws: Seq<Seq<char>>, i: int)
    requires
        forall|k: int| 0 <= k < ws.len() ==> is_word(#[trigger] ws[k]),
        0 <= i,
        i + 1 < ws.len(),
        ws[i] == seq!['-', 'i', 'd'],
        forall|j: int| 0 <= j < i ==> #[trigger] ws[j] != seq!['-', 'i', 'd'],
    ensures
        container_id_of(spaced(ws)) == ws[i + 1],
{
    lemma_words_of_spaced(ws);
    lemma_value_after_first_flag(ws, i);
}

/// On a command line of words separated by spaces where no `-id` flag is followed by a
/// word, the container id is `N/A`.
pub proof fn lemma_container_id_without_flag(ws: Seq<Seq<char>>)
    requires
        forall|k: int| 0 <= k < ws.len() ==> is_word(#[trigger] ws[k]),
        forall|j: int| 0 <= j && j + 1 < ws.len() ==> #[trigger] ws[j] != seq!['-', 'i', 'd'],
    ensures
        container_id_of(spaced(ws)) == seq!['N', '/', 'A'],
{
    lemma_words_of_spaced(ws);
    lemma_no_value_without_flag(ws);
}

/// A log entry carries the process's pid, name, sizes and usages unchanged, and the id of
/// its container in place of the command line.
pub proof fn lemma_log_entry_fields(p: ProcessView)
    ensures
        log_of(p).pid == p.pid,
        log_of(p).container_id == container_id_of(p.cmd_line),
        log_of(p).name == p.name,
        log_of(p).vsz == p.vsz,
        log_of(p).rss == p.rss,
        log_of(p).memory_usage == p.memory_usage,
        log_of(p).cpu_usage == p.cpu_usage,
{
}

} // verus!
