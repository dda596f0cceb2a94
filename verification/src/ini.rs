use vstd::prelude::*;

use crate::text::{chars_of, views};

verus! {

// ---------------------------------------------------------------------
// Splitting text into lines
// ---------------------------------------------------------------------

/// The index of the first '\n' in `s`, or `s.len()` where there is none.
pub open spec fn line_end(s: Seq<char>) -> nat
    decreases s.len(),
{
    if s.len() == 0 {
        0
    } else if s[0] == '\n' {
        0
    } else {
        1 + line_end(s.drop_first())
    }
}

/// `l` without one '\r' at its end, where it has one.
pub open spec fn strip_cr(l: Seq<char>) -> Seq<char> {
    if l.len() > 0 && l.last() == '\r' {
        l.drop_last()
    } else {
        l
    }
}

/// The lines of `s` as a buffered reader hands them out: `s` is cut at
/// each '\n', which is dropped together with a '\r' just before it; a last
/// piece without '\n' is a line as it stands, and no empty line follows a
/// final '\n'.
pub open spec fn lines_of(s: Seq<char>) -> Seq<Seq<char>>
    decreases s.len(),
{
    if s.len() == 0 {
        seq![]
    } else {
        let e = line_end(s);
        if e >= s.len() {
            seq![s]
        } else {
            proof {
                lemma_line_end_bound(s);
            }
            seq![strip_cr(s.take(e as int))] + lines_of(s.skip(e as int + 1))
        }
    }
}

/// `line_end` is the first index that holds '\n'.
pub proof fn lemma_line_end(s: Seq<char>, k: int)
    requires
        0 <= k <= s.len(),
        forall|j: int| 0 <= j < k ==> s[j] != '\n',
        k == s.len() || s[k] == '\n',
    ensures
        line_end(s) == k,
    decreases k,
{
    if k > 0 {
        lemma_line_end(s.drop_first(), k - 1);
    }
}

/// `line_end` never passes the end of the text.
pub proof fn lemma_line_end_bound(s: Seq<char>)
    ensures
        line_end(s) <= s.len(),
        line_end(s) < s.len() ==> s[line_end(s) as int] == '\n',
        forall|j: int| 0 <= j < line_end(s) ==> s[j] != '\n',
    decreases s.len(),
{
    if s.len() > 0 && s[0] != '\n' {
        lemma_line_end_bound(s.drop_first());
        assert forall|j: int| 0 <= j < line_end(s) implies s[j] != '\n' by {
            if j > 0 {
                assert(s[j] == s.drop_first()[j - 1]);
            }
        }
    }
}

/// The text `s` cut into lines, as `lines_of` describes.
pub fn split_lines(content: &str) -> (ls: Vec<String>)
    ensures
        views(ls@) == lines_of(content@),
{
    let v = chars_of(content);
    let n = v.len();
    let ghost s = content@;
    let mut out: Vec<String> = Vec::new();
    let mut start: usize = 0;
    let mut i: usize = 0;
    assert(s.skip(0) =~= s);
    assert(views(out@) + lines_of(s) =~= lines_of(s));
    while i < n
        invariant
            v@ == s,
            s == content@,
            n == v.len(),
            start <= i <= n,
            lines_of(s) == views(out@) + lines_of(s.skip(start as int)),
            forall|j: int| start <= j < i ==> s[j] != '\n',
        decreases n - i,
    {
        if v[i] == '\n' {
            let end = if i > start && v[i - 1] == '\r' {
                i - 1
            } else {
                i
            };
            let line = content.substring_char(start, end).to_owned();
            proof {
                let t = s.skip(start as int);
                let k = (i - start) as int;
                lemma_line_end(t, k);
                assert(t.take(k) =~= s.subrange(start as int, i as int));
                assert(t.skip(k + 1) =~= s.skip(i + 1));
                assert(line@ =~= strip_cr(s.subrange(start as int, i as int)));
                assert(views(out@.push(line)) =~= views(out@).push(line@));
            }
            out.push(line);
            start = i + 1;
        }
        i += 1;
    }
    if start < n {
        let line = content.substring_char(start, n).to_owned();
        proof {
            let t = s.skip(start as int);
            lemma_line_end(t, t.len() as int);
            assert(line@ =~= t);
            assert(views(out@.push(line)) =~= views(out@).push(line@));
        }
        out.push(line);
    } else {
        assert(s.skip(start as int).len() == 0);
        assert(views(out@) + seq![] =~= views(out@));
    }
    out
}


// ---------------------------------------------------------------------
// What the lines of a `.repo` file say
// ---------------------------------------------------------------------

/// A repository as its `.repo` file describes it.
#[derive(Debug, Clone)]
pub struct Repo {
    /// Whether an `enabled=...1` line was found.
    pub enabled: bool,
    /// The last section name before that line, or "N/A".
    pub name: String,
}

impl View for Repo {
    type V = (bool, Seq<char>);

    open spec fn view(&self) -> (bool, Seq<char>) {
        (self.enabled, self.name@)
    }
}

/// `l` without the characters `c` at its start.
pub open spec fn trim_start(l: Seq<char>, c: char) -> Seq<char>
    decreases l.len(),
{
    if l.len() > 0 && l[0] == c {
        trim_start(l.drop_first(), c)
    } else {
        l
    }
}

/// `l` without the characters `c` at its end.
pub open spec fn trim_end(l: Seq<char>, c: char) -> Seq<char>
    decreases l.len(),
{
    if l.len() > 0 && l.last() == c {
        trim_end(l.drop_last(), c)
    } else {
        l
    }
}

/// A section header: a line that starts with '[' and ends with ']'.
pub open spec fn is_section_header(l: Seq<char>) -> bool {
    l.len() > 0 && l[0] == '[' && l.last() == ']'
}

/// The name in a section header: the line without its leading '['
/// characters, then without the trailing ']' characters of what is left.
pub open spec fn section_name(l: Seq<char>) -> Seq<char> {
    trim_end(trim_start(l, '['), ']')
}

/// The word that opens the line that enables a repository.
pub open spec fn enabled_key() -> Seq<char> {
    seq!['e', 'n', 'a', 'b', 'l', 'e', 'd']
}

/// A line that enables the repository: it starts with "enabled" and ends
/// with '1'.
pub open spec fn enables_repo(l: Seq<char>) -> bool {
    &&& l.len() >= 7
    &&& l.take(7) == enabled_key()
    &&& l.last() == '1'
}

/// The name a repository has before any section header.
pub open spec fn unnamed() -> Seq<char> {
    seq!['N', '/', 'A']
}

/// Reading `lines` in order with `name` as the current section name: each
/// section header renames, and the first enabling line ends the reading
/// with the repository enabled.
pub open spec fn scan_lines(lines: Seq<Seq<char>>, name: Seq<char>) -> (bool, Seq<char>)
    decreases lines.len(),
{
    if lines.len() == 0 {
        (false, name)
    } else {
        let l = lines[0];
        let renamed = if is_section_header(l) {
            section_name(l)
        } else {
            name
        };
        if enables_repo(l) {
            (true, renamed)
        } else {
            scan_lines(lines.drop_first(), renamed)
        }
    }
}

/// What the lines of a `.repo` file say of the repository.
pub open spec fn repo_of_lines(lines: Seq<Seq<char>>) -> (bool, Seq<char>) {
    scan_lines(lines, unnamed())
}

/// What the text of a `.repo` file says of the repository.
pub open spec fn repo_of_text(content: Seq<char>) -> (bool, Seq<char>) {
    repo_of_lines(lines_of(content))
}

fn is_header_chars(v: &Vec<char>) -> (b: bool)
    ensures
        b == is_section_header(v@),
{
    v.len() > 0 && v[0] == '[' && v[v.len() - 1] == ']'
}

fn enables_chars(v: &Vec<char>) -> (b: bool)
    ensures
        b == enables_repo(v@),
{
    if v.len() < 8 {
        // a line of seven characters that starts with "enabled" ends with 'd'
        return false;
    }
    let b = v[0] == 'e' && v[1] == 'n' && v[2] == 'a' && v[3] == 'b' && v[4] == 'l'
        && v[5] == 'e' && v[6] == 'd' && v[v.len() - 1] == '1';
    proof {
        if b {
            assert(v@.take(7) =~= enabled_key());
        } else if v@.take(7) == enabled_key() {
            assert(v@.take(7)[0] == 'e' && v@.take(7)[1] == 'n' && v@.take(7)[2] == 'a'
                && v@.take(7)[3] == 'b' && v@.take(7)[4] == 'l' && v@.take(7)[5] == 'e'
                && v@.take(7)[6] == 'd');
        }
    }
    b
}

/// The section name of a header line whose characters are `v`.
fn section_name_of(line: &str, v: &Vec<char>) -> (name: String)
    requires
        v@ == line@,
    ensures
        name@ == section_name(line@),
{
    let ghost l = line@;
    let n = v.len();
    let mut a: usize = 0;
    assert(l.skip(0) =~= l);
    while a < n && v[a] == '['
        invariant
            v@ == l,
            n == v.len(),
            a <= n,
            trim_start(l, '[') == trim_start(l.skip(a as int), '['),
        decreases n - a,
    {
        assert(l.skip(a as int).drop_first() =~= l.skip(a + 1));
        a += 1;
    }
    let mut b: usize = n;
    assert(l.skip(a as int) =~= l.subrange(a as int, n as int));
    while b > a && v[b - 1] == ']'
        invariant
            v@ == l,
            n == v.len(),
            a <= b <= n,
            section_name(l) == trim_end(l.subrange(a as int, b as int), ']'),
        decreases b,
    {
        assert(l.subrange(a as int, b as int).drop_last() =~= l.subrange(a as int, b - 1));
        b -= 1;
    }
    line.substring_char(a, b).to_owned()
}

/// Reads what the lines of a `.repo` file say: the repository is enabled
/// when some line starts with "enabled" and ends with '1', and its name is
/// the last section header (`[name]`) before the first such line, or "N/A".
pub fn repo_from_lines(lines: &Vec<String>) -> (r: Repo)
    ensures
        r@ == repo_of_lines(views(lines@)),
{
    let ghost ls = views(lines@);
    let mut name = "N/A".to_owned();
    proof {
        reveal_strlit("N/A");
        assert(name@ =~= unnamed());
        assert(ls.skip(0) =~= ls);
    }
    let mut i: usize = 0;
    while i < lines.len()
        invariant
            ls == views(lines@),
            i <= lines.len(),
            repo_of_lines(ls) == scan_lines(ls.skip(i as int), name@),
        decreases lines.len() - i,
    {
        let line = lines[i].as_str();
        let v = chars_of(line);
        assert(ls.skip(i as int)[0] == line@);
        if is_header_chars(&v) {
            name = section_name_of(line, &v);
        }
        if enables_chars(&v) {
            return Repo { enabled: true, name };
        }
        assert(ls.skip(i as int).drop_first() =~= ls.skip(i + 1));
        i += 1;
    }
    Repo { enabled: false, name }
}

/// Reads what the text of a `.repo` file says of the repository: its lines
/// are read as `repo_from_lines` reads them.
pub fn repo_enabled(content: &str) -> (r: Repo)
    ensures
        r@ == repo_of_text(content@),
{
    let lines = split_lines(content);
    repo_from_lines(&lines)
}


// ---------------------------------------------------------------------
// Laws of reading a `.repo` file
// ---------------------------------------------------------------------

/// No line handed out by `lines_of` holds a '\n'.
pub proof fn law_lines_hold_no_newline(s: Seq<char>)
    ensures
        forall|k: int, j: int|
            0 <= k < lines_of(s).len() && 0 <= j < lines_of(s)[k].len() ==> lines_of(s)[k][j]
                != '\n',
    decreases s.len(),
{
    if s.len() > 0 {
        let e = line_end(s);
        lemma_line_end_bound(s);
        if e < s.len() {
            law_lines_hold_no_newline(s.skip(e as int + 1));
            let first = strip_cr(s.take(e as int));
            assert forall|k: int, j: int|
                0 <= k < lines_of(s).len() && 0 <= j < lines_of(s)[k].len() implies lines_of(
                s,
            )[k][j] != '\n' by {
                if k == 0 {
                    assert(lines_of(s)[0] == first);
                    assert(first[j] == s[j]);
                } else {
                    assert(lines_of(s)[k] == lines_of(s.skip(e as int + 1))[k - 1]);
                }
            }
        }
    }
}

/// Text that ends with '\n' is read line by line apart from what follows
/// it: the lines of `s + t` are the lines of `s`, then those of `t`.
pub proof fn law_lines_of_concat(s: Seq<char>, t: Seq<char>)
    requires
        s.len() == 0 || s.last() == '\n',
    ensures
        lines_of(s + t) == lines_of(s) + lines_of(t),
    decreases s.len(),
{
    if s.len() == 0 {
        assert(s + t =~= t);
        assert(lines_of(s) + lines_of(t) =~= lines_of(t));
    } else {
        lemma_line_end_bound(s);
        let e = line_end(s) as int;
        if e == s.len() {
            assert(s[s.len() - 1] == '\n');
        }
        assert(e < s.len());
        let st = s + t;
        assert forall|j: int| 0 <= j < e implies st[j] != '\n' by {
            assert(st[j] == s[j]);
        }
        assert(st[e] == s[e]);
        lemma_line_end(st, e);
        let rest = s.skip(e + 1);
        assert(st.take(e) =~= s.take(e));
        assert(st.skip(e + 1) =~= rest + t);
        if rest.len() > 0 {
            assert(rest.last() == s.last());
        }
        law_lines_of_concat(rest, t);
        assert(lines_of(s) + lines_of(t) =~= seq![strip_cr(s.take(e))] + (lines_of(rest)
            + lines_of(t)));
    }
}

/// The reading is enabled exactly when some line enables the repository.
pub proof fn law_enabled_iff_some_line_enables(lines: Seq<Seq<char>>, name: Seq<char>)
    ensures
        scan_lines(lines, name).0 <==> exists|i: int|
            0 <= i < lines.len() && enables_repo(#[trigger] lines[i]),
    decreases lines.len(),
{
    if lines.len() > 0 {
        let l = lines[0];
        let renamed = if is_section_header(l) {
            section_name(l)
        } else {
            name
        };
        let rest = lines.drop_first();
        law_enabled_iff_some_line_enables(rest, renamed);
        if !enables_repo(l) {
            if exists|i: int| 0 <= i < lines.len() && enables_repo(#[trigger] lines[i]) {
                let i = choose|i: int| 0 <= i < lines.len() && enables_repo(#[trigger] lines[i]);
                assert(rest[i - 1] == lines[i]);
            }
            if exists|i: int| 0 <= i < rest.len() && enables_repo(#[trigger] rest[i]) {
                let i = choose|i: int| 0 <= i < rest.len() && enables_repo(#[trigger] rest[i]);
                assert(lines[i + 1] == rest[i]);
            }
        } else {
            assert(enables_repo(lines[0]));
        }
    }
}

/// Only a line whose first seven characters are exactly "enabled" and
/// whose last character is '1' enables the repository: the reading is
/// enabled exactly when some line is such a line. A line such as
/// "autorefresh=1" or "gpgcheck=1" never enables it.
pub proof fn law_only_enabled_key_lines_enable(lines: Seq<Seq<char>>, name: Seq<char>)
    ensures
        scan_lines(lines, name).0 <==> exists|i: int|
            0 <= i < lines.len() && (#[trigger] lines[i]).len() >= 7 && lines[i].take(7)
                == "enabled"@ && lines[i].last() == '1',
{
    reveal_strlit("enabled");
    assert("enabled"@ =~= seq!['e', 'n', 'a', 'b', 'l', 'e', 'd']);
    law_enabled_iff_some_line_enables(lines, name);
    if scan_lines(lines, name).0 {
        let i = choose|i: int| 0 <= i < lines.len() && enables_repo(#[trigger] lines[i]);
        assert(lines[i].take(7) =~= "enabled"@);
    }
    if exists|i: int|
        0 <= i < lines.len() && (#[trigger] lines[i]).len() >= 7 && lines[i].take(7)
            == "enabled"@ && lines[i].last() == '1' {
        let i = choose|i: int|
            0 <= i < lines.len() && (#[trigger] lines[i]).len() >= 7 && lines[i].take(7)
                == "enabled"@ && lines[i].last() == '1';
        assert(lines[i].take(7) =~= enabled_key());
        assert(enables_repo(lines[i]));
    }
}

/// The text of a `.repo` file reads as enabled exactly when one of its
/// lines starts with "enabled" and ends with '1'.
pub proof fn law_text_enabled_iff_enabled_line(content: Seq<char>)
    ensures
        repo_of_text(content).0 <==> exists|i: int|
            0 <= i < lines_of(content).len() && (#[trigger] lines_of(content)[i]).len() >= 7
                && lines_of(content)[i].take(7) == "enabled"@ && lines_of(content)[i].last()
                == '1',
{
    law_only_enabled_key_lines_enable(lines_of(content), unnamed());
}

/// The last section header wins: after a header `h` that no enabling line
/// precedes, and with no header after it, the name is the name in `h`.
pub proof fn law_last_header_names(
    a: Seq<Seq<char>>,
    h: Seq<char>,
    b: Seq<Seq<char>>,
    name: Seq<char>,
)
    requires
        forall|i: int| 0 <= i < a.len() ==> !enables_repo(#[trigger] a[i]),
        is_section_header(h),
        forall|i: int| 0 <= i < b.len() ==> !is_section_header(#[trigger] b[i]),
    ensures
        scan_lines(a + seq![h] + b, name).1 == section_name(h),
{
    assert(a + seq![h] + b =~= a + (seq![h] + b));
    law_lines_read_in_order(a, seq![h] + b, name);
    let hb = seq![h] + b;
    assert(hb[0] == h);
    assert(!enables_repo(h)) by {
        if enables_repo(h) {
            assert(h.take(7)[0] == enabled_key()[0]);
        }
    }
    assert(hb.drop_first() =~= b);
    law_no_header_keeps_name(b, section_name(h));
}

/// Lines are the text between the '\n's: where the text holds no '\r'
/// and ends with '\n', each line followed by '\n', one after the other,
/// gives the text back.
pub proof fn law_lines_join_back(s: Seq<char>)
    requires
        !s.contains('\r'),
        s.len() == 0 || s.last() == '\n',
    ensures
        joined_lines(lines_of(s)) == s,
    decreases s.len(),
{
    if s.len() > 0 {
        lemma_line_end_bound(s);
        let e = line_end(s) as int;
        if e == s.len() {
            assert(s[s.len() - 1] == '\n');
        }
        let first = s.take(e);
        if first.len() > 0 && first.last() == '\r' {
            assert(s[e - 1] == '\r');
        }
        assert(strip_cr(first) == first);
        let rest = s.skip(e + 1);
        if rest.contains('\r') {
            let j = choose|j: int| 0 <= j < rest.len() && rest[j] == '\r';
            assert(s[e + 1 + j] == '\r');
        }
        if rest.len() > 0 {
            assert(rest.last() == s.last());
        }
        law_lines_join_back(rest);
        let ls = lines_of(s);
        assert(ls[0] == first);
        assert(ls.drop_first() =~= lines_of(rest));
        assert(first + seq!['\n'] + rest =~= s);
    }
}

/// The lines, each followed by '\n', one after the other.
pub open spec fn joined_lines(ls: Seq<Seq<char>>) -> Seq<char>
    decreases ls.len(),
{
    if ls.len() == 0 {
        seq![]
    } else {
        ls[0] + seq!['\n'] + joined_lines(ls.drop_first())
    }
}

/// Once a line has enabled the repository, the lines after it change
/// nothing.
pub proof fn law_lines_after_enabling_ignored(
    a: Seq<Seq<char>>,
    b: Seq<Seq<char>>,
    name: Seq<char>,
)
    requires
        exists|i: int| 0 <= i < a.len() && enables_repo(#[trigger] a[i]),
    ensures
        scan_lines(a + b, name) == scan_lines(a, name),
    decreases a.len(),
{
    let ab = a + b;
    assert(ab[0] == a[0]);
    let l = a[0];
    let renamed = if is_section_header(l) {
        section_name(l)
    } else {
        name
    };
    if !enables_repo(l) {
        let i = choose|i: int| 0 <= i < a.len() && enables_repo(#[trigger] a[i]);
        assert(a.drop_first()[i - 1] == a[i]);
        assert(ab.drop_first() =~= a.drop_first() + b);
        law_lines_after_enabling_ignored(a.drop_first(), b, renamed);
    }
}

/// Lines are read in order: when no line of `a` enables the repository,
/// reading `a + b` reads `b` with the name that `a` left.
pub proof fn law_lines_read_in_order(a: Seq<Seq<char>>, b: Seq<Seq<char>>, name: Seq<char>)
    requires
        forall|i: int| 0 <= i < a.len() ==> !enables_repo(#[trigger] a[i]),
    ensures
        scan_lines(a + b, name) == scan_lines(b, scan_lines(a, name).1),
    decreases a.len(),
{
    if a.len() == 0 {
        assert(a + b =~= b);
    } else {
        let ab = a + b;
        assert(ab[0] == a[0]);
        assert(!enables_repo(a[0]));
        let l = a[0];
        let renamed = if is_section_header(l) {
            section_name(l)
        } else {
            name
        };
        assert forall|i: int| 0 <= i < a.drop_first().len() implies !enables_repo(
            #[trigger] a.drop_first()[i],
        ) by {
            assert(a.drop_first()[i] == a[i + 1]);
        }
        assert(ab.drop_first() =~= a.drop_first() + b);
        law_lines_read_in_order(a.drop_first(), b, renamed);
    }
}

/// Without section headers the name stays as it was.
pub proof fn law_no_header_keeps_name(lines: Seq<Seq<char>>, name: Seq<char>)
    requires
        forall|i: int| 0 <= i < lines.len() ==> !is_section_header(#[trigger] lines[i]),
    ensures
        scan_lines(lines, name).1 == name,
    decreases lines.len(),
{
    if lines.len() > 0 {
        assert(!is_section_header(lines[0]));
        assert forall|i: int| 0 <= i < lines.drop_first().len() implies !is_section_header(
            #[trigger] lines.drop_first()[i],
        ) by {
            assert(lines.drop_first()[i] == lines[i + 1]);
        }
        law_no_header_keeps_name(lines.drop_first(), name);
    }
}

/// The header `[x]` names the section `x`, where `x` neither starts with
/// '[' nor ends with ']'.
pub proof fn law_bracketed_name(x: Seq<char>)
    requires
        x.len() == 0 || (x[0] != '[' && x.last() != ']'),
    ensures
        is_section_header(seq!['['] + x + seq![']']),
        section_name(seq!['['] + x + seq![']']) == x,
{
    let h = seq!['['] + x + seq![']'];
    assert(h.drop_first() =~= x + seq![']']);
    let inner = x + seq![']'];
    if x.len() > 0 {
        assert(inner[0] == x[0]);
    }
    assert(trim_start(inner, '[') == inner);
    assert(inner.drop_last() =~= x);
    if x.len() > 0 {
        assert(x.last() == inner[x.len() - 1]);
    }
    assert(trim_end(x, ']') == x);
}

/// Text after the line that enables the repository changes nothing: where
/// `s` ends with '\n' and one of its lines enables the repository, the
/// text `s + t` says what `s` says, whatever `t` is.
pub proof fn law_text_after_enabling_ignored(s: Seq<char>, t: Seq<char>)
    requires
        s.len() == 0 || s.last() == '\n',
        exists|i: int| 0 <= i < lines_of(s).len() && enables_repo(#[trigger] lines_of(s)[i]),
    ensures
        repo_of_text(s + t) == repo_of_text(s),
{
    law_lines_of_concat(s, t);
    law_lines_after_enabling_ignored(lines_of(s), lines_of(t), unnamed());
}

/// Text is read in order: where `s` ends with '\n' and none of its lines
/// enables the repository, `s + t` reads the lines of `t` with the name
/// that `s` left.
pub proof fn law_text_read_in_order(s: Seq<char>, t: Seq<char>)
    requires
        s.len() == 0 || s.last() == '\n',
        forall|i: int| 0 <= i < lines_of(s).len() ==> !enables_repo(#[trigger] lines_of(s)[i]),
    ensures
        repo_of_text(s + t) == scan_lines(lines_of(t), repo_of_text(s).1),
{
    law_lines_of_concat(s, t);
    law_lines_read_in_order(lines_of(s), lines_of(t), unnamed());
}

} // verus!
