//! Command-line settings: two directory names picked out of the raw
//! argument list, with surrounding double-quotes stripped.

use vstd::prelude::*;

verus! {

/// The characters of `s` with every double-quote removed.
pub open spec fn without_quotes(s: Seq<char>) -> Seq<char> {
    s.filter(|c: char| c != '"')
}

/// Relies on `String::push`: appends exactly the one character at the
/// end of the string.
#[verifier::external_body]
fn push_char(out: &mut String, c: char)
    ensures
        final(out)@ == old(out)@.push(c),
{
    out.push(c);
}

/// A copy of `s` with every double-quote character removed.
pub fn strip_quotes(s: &str) -> (r: String)
    ensures
        r@ == without_quotes(s@),
{
    let n = s.unicode_len();
    let mut out = String::new();
    proof {
        reveal(Seq::filter);
        assert(s@.take(0).filter(|c: char| c != '"') =~= Seq::<char>::empty());
    }
    for i in 0..n
        invariant
            n == s@.len(),
            out@ == s@.take(i as int).filter(|c: char| c != '"'),
        decreases n - i,
    {
        let c = s.get_char(i);
        proof {
            reveal(Seq::filter);
            assert(s@.take(i + 1).drop_last() =~= s@.take(i as int));
            assert(s@.take(i + 1).last() == s@[i as int]);
        }
        if c != '"' {
            push_char(&mut out, c);
        }
    }
    proof {
        assert(s@.take(s@.len() as int) =~= s@);
    }
    out
}

/// The two directory settings a run starts from.
pub struct ArgsConfigs {
    pub src_dir: String,
    pub dst_dir: String,
}

impl ArgsConfigs {
    /// Reads the settings out of the raw argument list: the element
    /// at 0 names the program, the next two name the directories,
    /// with double-quotes stripped. Fewer than three elements is an
    /// error.
    pub fn build(args: &Vec<String>) -> (r: Result<ArgsConfigs, &'static str>)
        ensures
            args@.len() < 3 ==> (r matches Err(e) && e@ == "not enough arguments"@),
            args@.len() >= 3 ==> (r matches Ok(c) && c.src_dir@ == without_quotes(args@[1]@)
                && c.dst_dir@ == without_quotes(args@[2]@)),
    {
        if args.len() < 3 {
            return Err("not enough arguments");
        }
        let src_dir = strip_quotes(args[1].as_str());
        let dst_dir = strip_quotes(args[2].as_str());
        Ok(ArgsConfigs { src_dir, dst_dir })
    }
}

} // verus!
