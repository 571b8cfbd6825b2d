use vstd::prelude::*;

verus! {

/// Whether a file name already carries the `.raw` extension.
pub open spec fn has_raw_extension(s: Seq<char>) -> bool {
    s.len() >= 4 && s.subrange(s.len() - 4, s.len() as int) == ".raw"@
}

/// The output file name for a requested name: unchanged when it already
/// ends in `.raw`, with `.raw` appended otherwise.
pub open spec fn normalize_spec(s: Seq<char>) -> Seq<char> {
    if has_raw_extension(s) {
        s
    } else {
        s + ".raw"@
    }
}

/// Normalizes a requested file name to the `.raw` output name.
pub fn normalize_file_name(name: &str) -> (r: String)
    ensures
        r@ == normalize_spec(name@),
{
    proof {
        reveal_strlit(".raw");
    }
    let n = name.unicode_len();
    if n >= 4 {
        let c0 = name.get_char(n - 4);
        let c1 = name.get_char(n - 3);
        let c2 = name.get_char(n - 2);
        let c3 = name.get_char(n - 1);
        if c0 == '.' && c1 == 'r' && c2 == 'a' && c3 == 'w' {
            proof {
                assert(name@.subrange(n - 4, n as int) =~= ".raw"@);
            }
            return name.to_owned();
        }
        proof {
            assert(name@.subrange(n - 4, n as int)[0] == c0);
            assert(name@.subrange(n - 4, n as int)[1] == c1);
            assert(name@.subrange(n - 4, n as int)[2] == c2);
            assert(name@.subrange(n - 4, n as int)[3] == c3);
            assert(!has_raw_extension(name@));
        }
    }
    String::from_str(name).concat(".raw")
}

/// The status line the tray collaborator displays while a capture runs.
pub fn status_message(file_name: &str) -> (r: String)
    ensures
        r@ == "Recording: "@ + file_name@,
{
    String::from_str("Recording: ").concat(file_name)
}

} // verus!
