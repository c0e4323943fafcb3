use vstd::prelude::*;

verus! {

/// The views of a sequence of strings.
pub open spec fn views(parts: Seq<String>) -> Seq<Seq<char>> {
    parts.map_values(|p: String| p@)
}

/// `parts` written one after another with `sep` between each two.
pub open spec fn join(parts: Seq<Seq<char>>, sep: Seq<char>) -> Seq<char>
    decreases parts.len(),
{
    if parts.len() == 0 {
        Seq::empty()
    } else if parts.len() == 1 {
        parts[0]
    } else {
        join(parts.drop_last(), sep) + sep + parts.last()
    }
}

/// Writes `parts` one after another with `sep` between each two.
pub fn join_strings(parts: &Vec<String>, sep: &str) -> (r: String)
    ensures
        r@ == join(views(parts@), sep@),
{
    let mut acc = String::new();
    let mut i: usize = 0;
    while i < parts.len()
        invariant
            i <= parts@.len(),
            acc@ == join(views(parts@).take(i as int), sep@),
        decreases parts@.len() - i,
    {
        proof {
            assert(views(parts@).take(i + 1).drop_last() =~= views(parts@).take(i as int));
            assert(views(parts@).take(i + 1).last() == parts@[i as int]@);
        }
        if i > 0 {
            acc.append(sep);
        } else {
            assert(acc@ =~= Seq::<char>::empty());
        }
        acc.append(parts[i].as_str());
        i = i + 1;
    }
    assert(views(parts@).take(parts@.len() as int) =~= views(parts@));
    acc
}

/// The program and the arguments that run `command` through the host's
/// command interpreter: `cmd /C` on Windows, `sh -c` elsewhere.
pub fn shell_invocation(command: &str, windows: bool) -> (r: (String, Vec<String>))
    ensures
        r.0@ == (if windows { "cmd"@ } else { "sh"@ }),
        r.1@.len() == 2,
        r.1@[0]@ == (if windows { "/C"@ } else { "-c"@ }),
        r.1@[1]@ == command@,
{
    let mut args: Vec<String> = Vec::new();
    if windows {
        args.push(String::from_str("/C"));
        args.push(String::from_str(command));
        (String::from_str("cmd"), args)
    } else {
        args.push(String::from_str("-c"));
        args.push(String::from_str(command));
        (String::from_str("sh"), args)
    }
}

} // verus!
