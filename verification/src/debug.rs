use vstd::prelude::*;

verus! {

/// The debugger keeps the most recent debug lines of a running TUI and, optionally, the path of
/// a file that each line is also appended to (so that debug output may be read while the TUI is
/// running). The process-wide instance lives with the application; every operation here takes
/// the debugger it acts on.
#[derive(Clone)]
pub struct Debugger {
    /// if some then output debug to this file
    pub log_file: Option<String>,
    pub enabled: bool,
    pub max_lines: usize,
    pub lines: Vec<String>,
}

/// The lines joined with a newline between each two.
pub open spec fn join_lines(lines: Seq<Seq<char>>) -> Seq<char>
    decreases lines.len(),
{
    if lines.len() == 0 {
        Seq::empty()
    } else if lines.len() == 1 {
        lines[0]
    } else {
        join_lines(lines.drop_last()) + seq!['\n'] + lines.last()
    }
}

/// The text of each line, in order.
pub open spec fn lines_view(lines: Seq<String>) -> Seq<Seq<char>> {
    lines.map_values(|l: String| l@)
}

/// The lines kept after appending `content` to `lines`: the oldest line is dropped when the
/// count would exceed `max_lines`.
pub open spec fn logged_lines(lines: Seq<String>, max_lines: usize, content: String) -> Seq<String> {
    let pushed = lines.push(content);
    if pushed.len() > max_lines {
        pushed.drop_first()
    } else {
        pushed
    }
}

impl Debugger {
    /// The state the debugger starts in: no log file, enabled, keeping at most 300 lines.
    pub fn new() -> (d: Debugger)
        ensures
            d.log_file.is_none(),
            d.enabled,
            d.max_lines == 300,
            d.lines@.len() == 0,
    {
        Debugger { log_file: None, enabled: true, max_lines: 300, lines: Vec::new() }
    }
}

/// All kept lines, joined by newlines.
pub fn get_content(d: &Debugger) -> (s: String)
    ensures
        s@ == join_lines(lines_view(d.lines@)),
{
    let mut out = String::new();
    let n = d.lines.len();
    let ghost lv = lines_view(d.lines@);
    let mut i: usize = 0;
    while i < n
        invariant
            n == d.lines@.len(),
            i <= n,
            lv == lines_view(d.lines@),
            out@ == join_lines(lv.take(i as int)),
        decreases n - i,
    {
        proof {
            reveal_strlit("\n");
        }
        if i != 0 {
            out.append("\n");
        }
        out.append(d.lines[i].as_str());
        proof {
            assert(lv.take(i + 1).drop_last() =~= lv.take(i as int));
            assert(lv.take(i + 1).last() == d.lines@[i as int]@);
            if i == 0 {
                assert(lv.take(1) =~= seq![d.lines@[0]@]);
            }
        }
        i = i + 1;
    }
    proof {
        assert(lv.take(n as int) =~= lv);
    }
    out
}

pub fn get_max_lines(d: &Debugger) -> (m: usize)
    ensures
        m == d.max_lines,
{
    d.max_lines
}

pub fn is_enabled(d: &Debugger) -> (b: bool)
    ensures
        b == d.enabled,
{
    d.enabled
}

pub fn enable(d: &mut Debugger)
    ensures
        final(d).enabled,
        final(d).log_file == old(d).log_file,
        final(d).max_lines == old(d).max_lines,
        final(d).lines@ == old(d).lines@,
{
    d.enabled = true;
}

pub fn disable(d: &mut Debugger)
    ensures
        !final(d).enabled,
        final(d).log_file == old(d).log_file,
        final(d).max_lines == old(d).max_lines,
        final(d).lines@ == old(d).lines@,
{
    d.enabled = false;
}

pub fn set_log_file(d: &mut Debugger, file: String)
    ensures
        final(d).log_file == Some(file),
        final(d).enabled == old(d).enabled,
        final(d).max_lines == old(d).max_lines,
        final(d).lines@ == old(d).lines@,
{
    d.log_file = Some(file);
}

/// Records a debug line. When the debugger is disabled nothing changes and `None` is returned.
/// Otherwise the line is kept (dropping the oldest line when more than `max_lines` would be
/// kept) and the log file, if one is set, is returned: the caller appends `content` to it as a
/// new line.
pub fn log(d: &mut Debugger, content: String) -> (append_to: Option<String>)
    ensures
        !old(d).enabled ==> *final(d) == *old(d) && append_to.is_none(),
        old(d).enabled ==> {
            &&& final(d).lines@ == logged_lines(old(d).lines@, old(d).max_lines, content)
            &&& final(d).enabled == old(d).enabled
            &&& final(d).max_lines == old(d).max_lines
            &&& final(d).log_file == old(d).log_file
            &&& append_to == old(d).log_file
        },
{
    if !d.enabled {
        return None;
    }
    d.lines.push(content);
    if d.lines.len() > d.max_lines {
        d.lines.remove(0);
        proof {
            assert(d.lines@ =~= logged_lines(old(d).lines@, old(d).max_lines, content));
        }
    }
    match &d.log_file {
        Some(f) => Some(f.clone()),
        None => None,
    }
}

/// Drops every kept line. The log file, if one is set, is returned: the caller empties it.
pub fn clear(d: &mut Debugger) -> (truncate: Option<String>)
    ensures
        final(d).lines@.len() == 0,
        final(d).enabled == old(d).enabled,
        final(d).max_lines == old(d).max_lines,
        final(d).log_file == old(d).log_file,
        truncate == old(d).log_file,
{
    d.lines.clear();
    match &d.log_file {
        Some(f) => Some(f.clone()),
        None => None,
    }
}

/// Once the kept lines are within `max_lines`, logging keeps them within it.
pub proof fn lemma_log_keeps_bound(lines: Seq<String>, max_lines: usize, content: String)
    requires
        lines.len() <= max_lines,
    ensures
        logged_lines(lines, max_lines, content).len() <= max_lines,
{
}

/// The newest logged line is always the last kept line, unless no line is kept at all.
pub proof fn lemma_log_last_is_newest(lines: Seq<String>, max_lines: usize, content: String)
    requires
        max_lines > 0,
        lines.len() <= max_lines,
    ensures
        logged_lines(lines, max_lines, content).last() == content,
{
}

/// While fewer than `max_lines` lines are kept, logging a line adds it to the content after a
/// newline (or makes it the whole content where none was kept).
pub proof fn lemma_log_appends_to_content(lines: Seq<String>, max_lines: usize, content: String)
    requires
        lines.len() < max_lines,
    ensures
        join_lines(lines_view(logged_lines(lines, max_lines, content))) == if lines.len() == 0 {
            content@
        } else {
            join_lines(lines_view(lines)) + seq!['\n'] + content@
        },
{
    let p = lines.push(content);
    assert(lines_view(p) =~= lines_view(lines).push(content@));
    assert(lines_view(p).drop_last() =~= lines_view(lines));
}

/// After the lines are cleared, logging `a` and then `b` (with room for two lines) gives the
/// content `a`, a newline, `b`.
pub proof fn lemma_clear_log_two(max_lines: usize, a: String, b: String)
    requires
        max_lines >= 2,
    ensures
        join_lines(lines_view(logged_lines(logged_lines(Seq::empty(), max_lines, a), max_lines, b))) == a@ + seq![
            '\n',
        ] + b@,
{
    let l1 = logged_lines(Seq::<String>::empty(), max_lines, a);
    lemma_log_appends_to_content(Seq::empty(), max_lines, a);
    lemma_log_appends_to_content(l1, max_lines, b);
}

} // verus!
