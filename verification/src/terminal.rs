//! The command grammar of the terminal. A typed line is trimmed of its
//! line breaks and split on the separators space, `=` and `:`; the first
//! token picks the command and the second one, where a command takes a
//! file, names the file. The host reads the lines and performs the
//! commands; this module only decides what a line means.
use vstd::prelude::*;

verus! {

/// What one typed line asks for. A file name is handed back as the byte
/// range it occupies in the line, so the host can slice it out.
#[derive(Copy, Clone, Debug, PartialEq, Eq, Structural)]
pub enum Command {
    /// Quit the system.
    Quit,
    /// Run or pause the system.
    Run,
    /// Show the help message.
    Help,
    /// Load atoms and VMs from the file named by this byte range.
    Load(usize, usize),
    /// Save atoms and VMs to the file named by this byte range.
    Save(usize, usize),
    /// A load command without a file name.
    LoadMissing,
    /// A save command without a file name.
    SaveMissing,
    /// Anything else.
    Unknown,
}

/// Whether the byte separates a command from its argument.
pub open spec fn spec_is_sep(b: u8) -> bool {
    b == 32 || b == 61 || b == 58
}

/// Whether the byte is a line break.
pub open spec fn spec_is_eol(b: u8) -> bool {
    b == 13 || b == 10
}

/// How many line-break bytes the line starts with.
pub open spec fn spec_trim_lo(s: Seq<u8>) -> int
    decreases s.len(),
{
    if s.len() > 0 && spec_is_eol(s[0]) {
        1 + spec_trim_lo(s.drop_first())
    } else {
        0
    }
}

/// Where the line ends once its trailing line-break bytes are gone.
pub open spec fn spec_trim_hi(s: Seq<u8>) -> int
    decreases s.len(),
{
    if s.len() > 0 && spec_is_eol(s.last()) {
        spec_trim_hi(s.drop_last())
    } else {
        s.len() as int
    }
}

/// Where the token that starts at `i` ends: the first separator at `i` or
/// after it, or the end of the sequence.
pub open spec fn spec_tok_end(s: Seq<u8>, i: int) -> int
    decreases s.len() - i when 0 <= i <= s.len()
{
    if i < s.len() && !spec_is_sep(s[i]) {
        spec_tok_end(s, i + 1)
    } else {
        i
    }
}

/// What a typed line means. The line is trimmed of line breaks; its first
/// token picks the command; for load and save the second token is the file
/// name, handed back as its byte range within the original line.
pub open spec fn spec_command(line: Seq<u8>) -> Command {
    let lo = spec_trim_lo(line);
    let hi = spec_trim_hi(line);
    if lo >= hi {
        Command::Unknown
    } else {
        let t = line.subrange(lo, hi);
        let e = spec_tok_end(t, 0);
        // the recognized words, byte for byte: "quit"/"q", "run"/"r",
        // "help"/"h", "load"/"l" and "save"/"s"
        if e == 4 && t[0] == 113 && t[1] == 117 && t[2] == 105 && t[3] == 116 || e == 1 && t[0]
            == 113 {
            Command::Quit
        } else if e == 3 && t[0] == 114 && t[1] == 117 && t[2] == 110 || e == 1 && t[0] == 114 {
            Command::Run
        } else if e == 4 && t[0] == 104 && t[1] == 101 && t[2] == 108 && t[3] == 112 || e == 1
            && t[0] == 104 {
            Command::Help
        } else if e == 4 && t[0] == 108 && t[1] == 111 && t[2] == 97 && t[3] == 100 || e == 1
            && t[0] == 108 {
            if e < t.len() {
                Command::Load((lo + e + 1) as usize, (lo + spec_tok_end(t, e + 1)) as usize)
            } else {
                Command::LoadMissing
            }
        } else if e == 4 && t[0] == 115 && t[1] == 97 && t[2] == 118 && t[3] == 101 || e == 1
            && t[0] == 115 {
            if e < t.len() {
                Command::Save((lo + e + 1) as usize, (lo + spec_tok_end(t, e + 1)) as usize)
            } else {
                Command::SaveMissing
            }
        } else {
            Command::Unknown
        }
    }
}

/// A stretch of non-separator bytes that ends at a separator or at the end
/// of the sequence is exactly one token.
proof fn lemma_tok_end(s: Seq<u8>, i: int, j: int)
    requires
        0 <= i <= j <= s.len(),
        forall|k: int| i <= k < j ==> !spec_is_sep(#[trigger] s[k]),
        j == s.len() || spec_is_sep(s[j]),
    ensures
        spec_tok_end(s, i) == j,
    decreases j - i,
{
    if i < j {
        lemma_tok_end(s, i + 1, j);
    }
}

/// Dropping one leading line-break byte shortens the leading trim by one.
proof fn lemma_trim_lo_step(s: Seq<u8>, n: int)
    requires
        0 <= n <= s.len(),
        forall|k: int| 0 <= k < n ==> spec_is_eol(#[trigger] s[k]),
        n == s.len() || !spec_is_eol(s[n]),
    ensures
        spec_trim_lo(s) == n,
    decreases s.len(),
{
    if s.len() > 0 && spec_is_eol(s[0]) {
        assert(n >= 1);
        let d = s.drop_first();
        assert(forall|k: int| 0 <= k < n - 1 ==> #[trigger] d[k] == s[k + 1]);
        lemma_trim_lo_step(d, n - 1);
    }
}

/// The trailing trim keeps everything up to the last byte that is not a
/// line break.
proof fn lemma_trim_hi_step(s: Seq<u8>, n: int)
    requires
        0 <= n <= s.len(),
        forall|k: int| n <= k < s.len() ==> spec_is_eol(#[trigger] s[k]),
        n == 0 || !spec_is_eol(s[n - 1]),
    ensures
        spec_trim_hi(s) == n,
    decreases s.len(),
{
    if s.len() > 0 && spec_is_eol(s.last()) {
        assert(n < s.len());
        let d = s.drop_last();
        lemma_trim_hi_step(d, n);
    }
}

/// Whether the byte separates a command from its argument.
pub fn is_sep(b: u8) -> (r: bool)
    ensures
        r == spec_is_sep(b),
{
    b == 32 || b == 61 || b == 58
}

/// Whether the byte is a line break.
pub fn is_eol(b: u8) -> (r: bool)
    ensures
        r == spec_is_eol(b),
{
    b == 13 || b == 10
}

/// Decides what a typed line means; see [`spec_command`]. The byte ranges
/// of a file name always lie within the line.
pub fn parse_command(line: &[u8]) -> (r: Command)
    ensures
        r == spec_command(line@),
        match r {
            Command::Load(f, t) => f <= t <= line@.len(),
            Command::Save(f, t) => f <= t <= line@.len(),
            _ => true,
        },
{
    let len = line.len();
    // trim the line breaks at both ends
    let mut lo: usize = 0;
    while lo < len && is_eol(line[lo])
        invariant
            lo <= len,
            len == line@.len(),
            forall|k: int| 0 <= k < lo ==> spec_is_eol(#[trigger] line@[k]),
        decreases len - lo,
    {
        lo += 1;
    }
    proof {
        lemma_trim_lo_step(line@, lo as int);
    }
    let mut hi: usize = len;
    while hi > lo && is_eol(line[hi - 1])
        invariant
            lo <= hi <= len,
            len == line@.len(),
            forall|k: int| hi <= k < len ==> spec_is_eol(#[trigger] line@[k]),
        decreases hi,
    {
        hi -= 1;
    }
    if lo >= hi {
        // the whole line is made of line breaks (or is empty)
        proof {
            if lo < len {
                assert(!spec_is_eol(line@[lo as int]));
                assert(lo < hi);
            }
            lemma_trim_hi_step(line@, 0);
        }
        return Command::Unknown;
    }
    proof {
        assert(!spec_is_eol(line@[hi - 1]));
        lemma_trim_hi_step(line@, hi as int);
    }
    let ghost t = line@.subrange(lo as int, hi as int);
    // the first token: up to the first separator
    let mut e: usize = lo;
    while e < hi && !is_sep(line[e])
        invariant
            lo <= e <= hi <= len,
            len == line@.len(),
            forall|k: int| lo <= k < e ==> !spec_is_sep(#[trigger] line@[k]),
        decreases hi - e,
    {
        e += 1;
    }
    proof {
        assert(forall|k: int| 0 <= k < t.len() ==> #[trigger] t[k] == line@[lo + k]);
        lemma_tok_end(t, 0, e - lo);
    }
    let n = e - lo;
    let is_load = n == 4 && line[lo] == 108 && line[lo + 1] == 111 && line[lo + 2] == 97 && line[lo
        + 3] == 100 || n == 1 && line[lo] == 108;
    let is_save = n == 4 && line[lo] == 115 && line[lo + 1] == 97 && line[lo + 2] == 118 && line[lo
        + 3] == 101 || n == 1 && line[lo] == 115;
    proof {
        assert(forall|k: int| 0 <= k < t.len() ==> #[trigger] t[k] == line@[lo + k]);
    }
    if n == 4 && line[lo] == 113 && line[lo + 1] == 117 && line[lo + 2] == 105 && line[lo + 3]
        == 116 || n == 1 && line[lo] == 113 {
        return Command::Quit;
    }
    if n == 3 && line[lo] == 114 && line[lo + 1] == 117 && line[lo + 2] == 110 || n == 1 && line[lo]
        == 114 {
        return Command::Run;
    }
    if n == 4 && line[lo] == 104 && line[lo + 1] == 101 && line[lo + 2] == 108 && line[lo + 3]
        == 112 || n == 1 && line[lo] == 104 {
        return Command::Help;
    }
    if is_load || is_save {
        if e >= hi {
            return if is_load {
                Command::LoadMissing
            } else {
                Command::SaveMissing
            };
        }
        // the second token: the file name
        let start = e + 1;
        let mut e2: usize = start;
        while e2 < hi && !is_sep(line[e2])
            invariant
                start <= e2 <= hi <= len,
                len == line@.len(),
                forall|k: int| start <= k < e2 ==> !spec_is_sep(#[trigger] line@[k]),
            decreases hi - e2,
        {
            e2 += 1;
        }
        proof {
            assert(forall|k: int| 0 <= k < t.len() ==> #[trigger] t[k] == line@[lo + k]);
            lemma_tok_end(t, (start - lo) as int, (e2 - lo) as int);
        }
        return if is_load {
            Command::Load(start, e2)
        } else {
            Command::Save(start, e2)
        };
    }
    Command::Unknown
}

} // verus!
