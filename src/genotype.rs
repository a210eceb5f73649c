use vstd::prelude::*;

verus! {

/// A SNP identifier, as read from one line of a genotype file.
#[derive(Debug, PartialEq, Eq, Hash)]
pub struct Snp {
    pub id: String,
}

/// The genotype recorded for a SNP.
#[derive(Debug, PartialEq, Eq, Hash)]
pub struct Genotype {
    pub name: String,
}

/// The genotype that every parsed line is given.
pub open spec fn default_genotype() -> Seq<char> {
    seq!['G', 'G']
}

/// Reads one line into a SNP and its genotype.
pub fn parse_line(line: String) -> (r: (Snp, Genotype))
    ensures
        r.0.id@ == line@,
        r.1.name@ == default_genotype(),
{
    let name = String::from_str("GG");
    proof {
        reveal_strlit("GG");
    }
    (Snp { id: line }, Genotype { name })
}

/// How many lines of a genotype file are read.
pub const MAX_LINES: usize = 50;

/// The number of lines that are read out of `n`.
pub open spec fn lines_read(n: nat) -> nat {
    if n < MAX_LINES {
        n
    } else {
        MAX_LINES as nat
    }
}

/// Whether some entry of `r` is keyed by `id`.
pub open spec fn has_snp(r: Seq<(Snp, Genotype)>, id: Seq<char>) -> bool {
    exists|i: int| 0 <= i < r.len() && (#[trigger] r[i]).0.id@ == id
}

/// Whether one of `lines` reads `id`.
pub open spec fn is_line(lines: Seq<String>, id: Seq<char>) -> bool {
    exists|j: int| 0 <= j < lines.len() && (#[trigger] lines[j])@ == id
}

/// Whether `r` is keyed by exactly the distinct lines among `lines`, each
/// with the default genotype.
pub open spec fn manifest_of(lines: Seq<String>, r: Seq<(Snp, Genotype)>) -> bool {
    &&& forall|i: int, j: int| 0 <= i < j < r.len() ==> (#[trigger] r[i]).0.id@ != (#[trigger] r[j]).0.id@
    &&& forall|i: int| 0 <= i < r.len() ==> (#[trigger] r[i]).1.name@ == default_genotype()
    &&& forall|i: int| 0 <= i < r.len() ==> is_line(lines, (#[trigger] r[i]).0.id@)
    &&& forall|j: int| 0 <= j < lines.len() ==> has_snp(r, (#[trigger] lines[j])@)
}

/// Whether some entry of `r` is keyed by `id`.
fn contains_snp(r: &Vec<(Snp, Genotype)>, id: &String) -> (b: bool)
    ensures
        b == has_snp(r@, id@),
{
    let mut i: usize = 0;
    while i < r.len()
        invariant
            i <= r@.len(),
            forall|j: int| 0 <= j < i ==> (#[trigger] r@[j]).0.id@ != id@,
        decreases r@.len() - i,
    {
        if r[i].0.id.eq(id) {
            return true;
        }
        i = i + 1;
    }
    false
}

/// Reads the SNPs of the first `MAX_LINES` lines, each once.
pub fn parse(lines: Vec<String>) -> (r: Vec<(Snp, Genotype)>)
    ensures
        manifest_of(lines@.take(lines_read(lines@.len()) as int), r@),
{
    let n: usize = if lines.len() < MAX_LINES {
        lines.len()
    } else {
        MAX_LINES
    };
    let mut out: Vec<(Snp, Genotype)> = Vec::new();
    let mut i: usize = 0;
    while i < n
        invariant
            n == lines_read(lines@.len()),
            n <= lines@.len(),
            i <= n,
            manifest_of(lines@.take(i as int), out@),
        decreases n - i,
    {
        let line = lines[i].clone();
        let ghost prefix = lines@.take(i as int);
        let ghost next = lines@.take(i + 1);
        assert(next =~= prefix.push(lines@[i as int]));
        if !contains_snp(&out, &line) {
            let ghost before = out@;
            out.push(parse_line(line));
            assert forall|j: int| 0 <= j < next.len() implies has_snp(out@, (#[trigger] next[j])@) by {
                if j < i {
                    assert(prefix[j] == next[j]);
                    assert(has_snp(before, prefix[j]@));
                    let k = choose|k: int| 0 <= k < before.len() && (#[trigger] before[k]).0.id@ == prefix[j]@;
                    assert(out@[k] == before[k]);
                } else {
                    assert(out@[before.len() as int].0.id@ == next[j]@);
                }
            }
            assert forall|a: int| 0 <= a < out@.len() implies is_line(next, (#[trigger] out@[a]).0.id@) by {
                if a < before.len() {
                    assert(out@[a] == before[a]);
                    assert(is_line(prefix, before[a].0.id@));
                    let j = choose|j: int| 0 <= j < prefix.len() && (#[trigger] prefix[j])@ == before[a].0.id@;
                    assert(next[j] == prefix[j]);
                } else {
                    assert(next[i as int]@ == out@[a].0.id@);
                }
            }
            assert forall|a: int, b: int| 0 <= a < b < out@.len() implies (#[trigger] out@[a]).0.id@ != (#[trigger] out@[b]).0.id@ by {
                if b == before.len() {
                    assert(out@[a] == before[a]);
                }
                else {
                    assert(out@[a] == before[a]);
                    assert(out@[b] == before[b]);
                }
            }
            assert forall|a: int| 0 <= a < out@.len() implies (#[trigger] out@[a]).1.name@ == default_genotype() by {
                if a < before.len() {
                    assert(out@[a] == before[a]);
                }
            }
        } else {
            assert forall|j: int| 0 <= j < next.len() implies has_snp(out@, (#[trigger] next[j])@) by {
                if j < i {
                    assert(prefix[j] == next[j]);
                }
            }
            assert forall|a: int| 0 <= a < out@.len() implies is_line(next, (#[trigger] out@[a]).0.id@) by {
                assert(is_line(prefix, out@[a].0.id@));
                let j = choose|j: int| 0 <= j < prefix.len() && (#[trigger] prefix[j])@ == out@[a].0.id@;
                assert(next[j] == prefix[j]);
            }
        }
        i = i + 1;
    }
    out
}

} // verus!
