use vstd::prelude::*;
use vstd::string::StringExecFns;
use crate::task::{TaskView, TodoList, views_of};

verus! {

/// The decimal digit for `d`, which is below ten.
pub open spec fn digit(d: nat) -> char {
    seq!['0', '1', '2', '3', '4', '5', '6', '7', '8', '9'][d as int]
}

/// The decimal digits of `n`, most significant first, without leading zeros.
pub open spec fn decimal(n: nat) -> Seq<char>
    decreases n,
{
    if n < 10 {
        seq![digit(n)]
    } else {
        decimal(n / 10).push(digit(n % 10))
    }
}

/// The completion marker: `X` for a completed task, a space otherwise.
pub open spec fn mark(completed: bool) -> Seq<char> {
    if completed {
        "X"@
    } else {
        " "@
    }
}

/// One line of the listing: identifier, marker in brackets and title,
/// separated by tabs.
pub open spec fn line(t: TaskView) -> Seq<char> {
    decimal(t.id) + "\t["@ + mark(t.completed) + "]\t"@ + t.title + "\n"@
}

/// The lines of all tasks, in order.
pub open spec fn lines(tasks: Seq<TaskView>) -> Seq<char>
    decreases tasks.len(),
{
    if tasks.len() == 0 {
        Seq::empty()
    } else {
        lines(tasks.drop_last()) + line(tasks.last())
    }
}

/// The text that lists `tasks`: a line per task, or a single line saying
/// that there are none.
pub open spec fn listing(tasks: Seq<TaskView>) -> Seq<char> {
    if tasks.len() == 0 {
        "No tasks found\n"@
    } else {
        lines(tasks)
    }
}

fn digit_str(d: usize) -> (r: &'static str)
    requires
        d < 10,
    ensures
        r@ == seq![digit(d as nat)],
{
    match d {
        0 => {
            proof {
                reveal_strlit("0");
            }
            "0"
        },
        1 => {
            proof {
                reveal_strlit("1");
            }
            "1"
        },
        2 => {
            proof {
                reveal_strlit("2");
            }
            "2"
        },
        3 => {
            proof {
                reveal_strlit("3");
            }
            "3"
        },
        4 => {
            proof {
                reveal_strlit("4");
            }
            "4"
        },
        5 => {
            proof {
                reveal_strlit("5");
            }
            "5"
        },
        6 => {
            proof {
                reveal_strlit("6");
            }
            "6"
        },
        7 => {
            proof {
                reveal_strlit("7");
            }
            "7"
        },
        8 => {
            proof {
                reveal_strlit("8");
            }
            "8"
        },
        _ => {
            proof {
                reveal_strlit("9");
            }
            "9"
        },
    }
}

/// Appends the decimal digits of `n` to `out`.
pub fn push_decimal(out: &mut String, n: usize)
    ensures
        final(out)@ == old(out)@ + decimal(n as nat),
    decreases n,
{
    if n >= 10 {
        push_decimal(out, n / 10);
    }
    out.append(digit_str(n % 10));
    assert(final(out)@ =~= old(out)@ + decimal(n as nat));
}

/// Appends the listing line of `t` to `out`.
fn push_line(out: &mut String, id: usize, completed: bool, title: &String)
    ensures
        final(out)@ == old(out)@ + line(TaskView { id: id as nat, title: title@, completed }),
{
    push_decimal(out, id);
    out.append("\t[");
    if completed {
        out.append("X");
    } else {
        out.append(" ");
    }
    out.append("]\t");
    out.append(title.as_str());
    out.append("\n");
    assert(final(out)@ =~= old(out)@ + line(TaskView { id: id as nat, title: title@, completed }));
}

/// The listing of `list`: a line per task in insertion order, or
/// `No tasks found` when it is empty.
pub fn render_listing(list: &TodoList) -> (r: String)
    ensures
        r@ == listing(list@.tasks),
{
    let tasks = list.tasks();
    let ghost v = views_of(tasks@);
    if tasks.len() == 0 {
        return String::from_str("No tasks found\n");
    }
    let mut out = String::new();
    let mut i: usize = 0;
    while i < tasks.len()
        invariant
            i <= tasks.len(),
            v == views_of(tasks@),
            out@ == lines(v.take(i as int)),
        decreases tasks.len() - i,
    {
        let t = &tasks[i];
        push_line(&mut out, t.id, t.completed, &t.title);
        assert(v.take(i + 1).drop_last() =~= v.take(i as int));
        assert(v[i as int] == t@);
        i = i + 1;
    }
    assert(v.take(i as int) =~= v);
    out
}

} // verus!
