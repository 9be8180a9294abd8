//! What an event says at run time: its info for one instance, and the
//! line-oriented event data (the payload line, then the rendered template).
use vstd::prelude::*;
use crate::event::{EventDescriptor, TargetSpec};
use crate::text::{opt_view, views};

verus! {

/// The description of an update: which event, who receives it, what it
/// replaces and how.
#[derive(Debug, Clone, PartialEq, Eq)]
pub struct EventInfo {
    pub name: String,
    pub receivers: Vec<String>,
    pub target: String,
    pub swap: String,
    pub id_field: String,
}

impl EventDescriptor {
    /// The update target for an instance whose id field holds `id_value`.
    pub open spec fn target_for(&self, id_value: Seq<char>) -> Seq<char> {
        match self.target {
            TargetSpec::Fixed(t) => t@,
            TargetSpec::Computed => self.id_prefix@ + id_value,
        }
    }

    /// The event info of an instance whose id field holds `id_value` (which
    /// a fixed target does not read).
    pub fn event_info(&self, id_value: &str) -> (r: EventInfo)
        ensures
            r.name@ == self.name@,
            views(r.receivers@) == views(self.receivers@),
            r.target@ == self.target_for(id_value@),
            r.swap@ == self.swap@,
            r.id_field@ == self.id_field@,
    {
        let mut receivers: Vec<String> = Vec::new();
        let mut i: usize = 0;
        while i < self.receivers.len()
            invariant
                i <= self.receivers@.len(),
                views(receivers@) == views(self.receivers@).take(i as int),
            decreases self.receivers@.len() - i,
        {
            let ghost old_rs = receivers@;
            receivers.push(self.receivers[i].clone());
            proof {
                assert(views(receivers@) =~= views(old_rs).push(receivers@.last()@));
                assert(views(receivers@) =~= views(self.receivers@).take(i + 1));
            }
            i = i + 1;
        }
        proof {
            assert(views(self.receivers@).take(self.receivers@.len() as int) =~= views(
                self.receivers@,
            ));
        }
        let target = match &self.target {
            TargetSpec::Fixed(t) => t.clone(),
            TargetSpec::Computed => {
                let mut t = self.id_prefix.clone();
                t.append(id_value);
                t
            },
        };
        EventInfo {
            name: self.name.clone(),
            receivers,
            target,
            swap: self.swap.clone(),
            id_field: self.id_field.clone(),
        }
    }
}

/// A fixed target is the selector itself, whatever the instance holds.
pub proof fn lemma_fixed_target(d: EventDescriptor, a: Seq<char>, b: Seq<char>)
    requires
        d.target is Fixed,
    ensures
        d.target_for(a) == d.target->Fixed_0@,
        d.target_for(a) == d.target_for(b),
{
}

/// A computed target is the prefix followed by the instance's id, so
/// instances with different ids get different targets.
pub proof fn lemma_computed_target(d: EventDescriptor, a: Seq<char>, b: Seq<char>)
    requires
        d.target is Computed,
    ensures
        d.target_for(a) == d.id_prefix@ + a,
        a != b ==> d.target_for(a) != d.target_for(b),
{
    if d.target_for(a) == d.target_for(b) {
        let p = d.id_prefix@;
        assert(a =~= (p + a).subrange(p.len() as int, (p + a).len() as int));
        assert(b =~= (p + b).subrange(p.len() as int, (p + b).len() as int));
    }
}

/// The event data: the payload line, then a newline and the rendered
/// template where there is one.
pub open spec fn event_data_text(payload: Seq<char>, body: Option<Seq<char>>) -> Seq<char> {
    match body {
        Some(b) => payload + seq!['\n'] + b,
        None => payload,
    }
}

/// The text before the first newline (all of it where there is none).
pub open spec fn first_line(s: Seq<char>) -> Seq<char>
    decreases s.len(),
{
    if s.len() == 0 || s[0] == '\n' {
        Seq::empty()
    } else {
        seq![s[0]] + first_line(s.drop_first())
    }
}

/// The text after the first newline, if there is one.
pub open spec fn after_first_line(s: Seq<char>) -> Option<Seq<char>> {
    if first_line(s).len() < s.len() {
        Some(s.subrange(first_line(s).len() as int + 1, s.len() as int))
    } else {
        None
    }
}

/// The first line is a prefix of the text, without a newline, and ends
/// where the text ends or at a newline.
pub proof fn lemma_first_line(s: Seq<char>)
    ensures
        first_line(s).len() <= s.len(),
        first_line(s) =~= s.take(first_line(s).len() as int),
        !first_line(s).contains('\n'),
        first_line(s).len() < s.len() ==> s[first_line(s).len() as int] == '\n',
    decreases s.len(),
{
    if s.len() > 0 && s[0] != '\n' {
        lemma_first_line(s.drop_first());
        let t = first_line(s.drop_first());
        assert(!(seq![s[0]] + t).contains('\n')) by {
            if (seq![s[0]] + t).contains('\n') {
                let j = choose|j: int| 0 <= j < (seq![s[0]] + t).len() && (seq![s[0]] + t)[j] == '\n';
                assert(j > 0);
                assert(t[j - 1] == '\n');
            }
        }
    }
}

/// The first line of a one-line payload followed by a body is the payload.
proof fn lemma_first_line_of_framed(payload: Seq<char>, rest: Seq<char>)
    requires
        !payload.contains('\n'),
        rest.len() > 0 ==> rest[0] == '\n',
    ensures
        first_line(payload + rest) == payload,
    decreases payload.len(),
{
    if payload.len() == 0 {
        assert(payload + rest =~= rest);
    } else {
        assert(payload[0] != '\n') by {
            if payload[0] == '\n' {
                assert(payload.contains('\n'));
            }
        }
        let tail = payload.drop_first();
        assert(!tail.contains('\n')) by {
            if tail.contains('\n') {
                let j = choose|j: int| 0 <= j < tail.len() && tail[j] == '\n';
                assert(payload[j + 1] == '\n');
            }
        }
        assert((payload + rest).drop_first() =~= tail + rest);
        lemma_first_line_of_framed(tail, rest);
        assert(seq![payload[0]] + tail =~= payload);
    }
}

/// Framing and splitting event data are inverse: the first line of the
/// event data is the payload, whenever the payload is one line (as compact
/// JSON is), and what follows it is the rendered body, if there is one.
pub proof fn lemma_event_data_round_trip(payload: Seq<char>, body: Option<Seq<char>>)
    requires
        !payload.contains('\n'),
    ensures
        first_line(event_data_text(payload, body)) == payload,
        after_first_line(event_data_text(payload, body)) == body,
{
    let s = event_data_text(payload, body);
    match body {
        Some(b) => {
            assert(s =~= payload + (seq!['\n'] + b));
            lemma_first_line_of_framed(payload, seq!['\n'] + b);
            assert(s.subrange(payload.len() as int + 1, s.len() as int) =~= b);
        },
        None => {
            assert(payload =~= payload + Seq::<char>::empty());
            lemma_first_line_of_framed(payload, Seq::<char>::empty());
        },
    }
}

/// Frames event data: the payload line, then, where a template is
/// attached, a newline and its rendered body.
pub fn frame_event_data(payload: String, body: Option<String>) -> (r: String)
    ensures
        r@ == event_data_text(payload@, opt_view(body)),
{
    match body {
        Some(b) => {
            let mut out = payload;
            proof {
                reveal_strlit("\n");
            }
            out.append("\n");
            out.append(b.as_str());
            out
        },
        None => payload,
    }
}

/// The event data of an instance: the payload line alone where no template
/// is attached, and otherwise the payload line, a newline and the rendered
/// template; a render error comes back unchanged.
pub fn render_event_data(payload: String, rendered: Option<Result<String, minijinja::Error>>) -> (r:
    Result<String, minijinja::Error>)
    ensures
        rendered is None ==> r is Ok && r->Ok_0@ == payload@,
        rendered matches Some(Ok(b)) ==> r is Ok && r->Ok_0@ == payload@ + seq!['\n'] + b@,
        rendered matches Some(Err(e)) ==> r == Err::<String, minijinja::Error>(e),
{
    match rendered {
        None => Ok(frame_event_data(payload, None)),
        Some(Ok(b)) => Ok(frame_event_data(payload, Some(b))),
        Some(Err(e)) => Err(e),
    }
}

/// Splits event data into its payload line and the rendered body, if any.
pub fn split_event_data(s: &str) -> (r: (String, Option<String>))
    ensures
        r.0@ == first_line(s@),
        opt_view(r.1) == after_first_line(s@),
{
    proof {
        lemma_first_line(s@);
    }
    let n = s.unicode_len();
    let mut i: usize = 0;
    let mut found = false;
    while i < n && !found
        invariant
            n == s@.len(),
            i <= n,
            i <= first_line(s@).len(),
            found ==> i < n && s@[i as int] == '\n',
            first_line(s@).len() <= s@.len(),
            first_line(s@) =~= s@.take(first_line(s@).len() as int),
            !first_line(s@).contains('\n'),
            first_line(s@).len() < s@.len() ==> s@[first_line(s@).len() as int] == '\n',
        decreases n - i + (if found { 0int } else { 1int }),
    {
        if s.get_char(i) == '\n' {
            found = true;
        } else {
            proof {
                if i == first_line(s@).len() {
                    assert(s@[i as int] == '\n');
                }
                assert(i < first_line(s@).len());
            }
            i = i + 1;
        }
    }
    proof {
        if i < first_line(s@).len() {
            assert(first_line(s@)[i as int] == s@[i as int]);
            assert(first_line(s@).contains('\n'));
        }
    }
    let head = String::from_str(s.substring_char(0, i));
    proof {
        assert(head@ =~= first_line(s@));
    }
    if i < n {
        let tail = String::from_str(s.substring_char(i + 1, n));
        (head, Some(tail))
    } else {
        (head, None)
    }
}

} // verus!
