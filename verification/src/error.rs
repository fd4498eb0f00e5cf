use vstd::prelude::*;

use crate::digits::nat_text;
use crate::digits::nat_text_u64;
use crate::float::zero_chars;
use crate::location::location_text;
use crate::location::LocV;
use crate::location::Location;

verus! {

/// One frame of the trail that an error gathers while it propagates.
#[derive(Debug)]
pub struct Frame {
    name: String,
    location: Location,
}

/// An evaluation error: a message and the trail of frames pushed while it
/// propagated outward, innermost first.
#[derive(Debug)]
pub struct Error {
    message: String,
    frames: Vec<Frame>,
}

/// Mathematical model of a frame.
pub struct FrameV {
    pub name: Seq<char>,
    pub location: LocV,
}

/// Mathematical model of an error.
pub struct ErrV {
    pub message: Seq<char>,
    pub frames: Seq<FrameV>,
}

impl Frame {
    pub closed spec fn model(&self) -> FrameV {
        FrameV { name: self.name@, location: self.location.model() }
    }
}

/// The models of a trail of frames, in order.
pub open spec fn model_frames(v: Seq<Frame>) -> Seq<FrameV>
    decreases v,
{
    if v.len() == 0 {
        Seq::empty()
    } else {
        model_frames(v.drop_last()).push(v.last().model())
    }
}

pub broadcast proof fn lemma_model_frames(v: Seq<Frame>)
    ensures
        (#[trigger] model_frames(v)).len() == v.len(),
        forall|i: int| 0 <= i < v.len() ==> model_frames(v)[i] == v[i].model(),
    decreases v,
{
    if v.len() > 0 {
        lemma_model_frames(v.drop_last());
    }
}

/// A number rendered in decimal, left-padded with zeroes to four places.
pub open spec fn pad4(n: nat) -> Seq<char> {
    if nat_text(n).len() >= 4 {
        nat_text(n)
    } else {
        zero_chars((4 - nat_text(n).len()) as nat) + nat_text(n)
    }
}

/// How one frame renders: the innermost takes an arrow mark, every later
/// one its zero-padded position.
pub open spec fn frame_line(f: FrameV, i: nat) -> Seq<char> {
    "  "@ + (if i == 0 {
        ">>>>"@
    } else {
        pad4(i)
    }) + " : '"@ + f.name + "' "@ + location_text(f.location) + "\n"@
}

/// How a trail of frames renders: one line per frame, in order.
pub open spec fn frames_text(frames: Seq<FrameV>) -> Seq<char>
    decreases frames.len(),
{
    if frames.len() == 0 {
        Seq::empty()
    } else {
        frames_text(frames.drop_last()) + frame_line(frames.last(), (frames.len() - 1) as nat)
    }
}

/// How a whole error renders: the message, then the trail.
pub open spec fn error_text(e: ErrV) -> Seq<char> {
    "Evaluation error : "@ + e.message + "\n\nStacktrace :\n"@ + frames_text(e.frames)
}

/// The frames whose names do not carry the internal marker.
pub open spec fn visible_frames(frames: Seq<FrameV>) -> Seq<FrameV>
    decreases frames.len(),
{
    if frames.len() == 0 {
        Seq::empty()
    } else if frames.last().name.len() > 0 && frames.last().name[0] == '#' {
        visible_frames(frames.drop_last())
    } else {
        visible_frames(frames.drop_last()).push(frames.last())
    }
}

impl Error {
    pub closed spec fn model(&self) -> ErrV {
        ErrV { message: self.message@, frames: model_frames(self.frames@) }
    }

    /// Creates a new error with an empty trail.
    pub fn new(message: &str) -> (r: Self)
        ensures
            r.model() == (ErrV { message: message@, frames: Seq::<FrameV>::empty() }),
    {
        let r = Self { message: message.to_owned(), frames: Vec::new() };
        proof {
            assert(model_frames(r.frames@) =~= Seq::<FrameV>::empty());
        }
        r
    }

    /// Creates a new error and wraps it into a `Result::Err`.
    pub fn err<T>(message: &str) -> (r: Result<T, Self>)
        ensures
            r matches Err(e) && e.model() == (ErrV {
                message: message@,
                frames: Seq::<FrameV>::empty(),
            }),
    {
        Err(Self::new(message))
    }

    /// Creates a new error carrying one frame.
    pub fn newf(message: &str, name: &str, location: Location) -> (r: Self)
        ensures
            r.model() == (ErrV {
                message: message@,
                frames: seq![FrameV { name: name@, location: location.model() }],
            }),
    {
        let r = Self::new(message).push(name, location);
        proof {
            assert(r.model().frames =~= seq![
                FrameV { name: name@, location: location.model() },
            ]);
        }
        r
    }

    /// Creates a new error carrying one frame, wrapped into a `Result::Err`.
    pub fn errf<T>(message: &str, name: &str, location: Location) -> (r: Result<T, Error>)
        ensures
            r matches Err(e) && e.model() == (ErrV {
                message: message@,
                frames: seq![FrameV { name: name@, location: location.model() }],
            }),
    {
        Err(Self::newf(message, name, location))
    }

    /// Pushes one more frame onto an error that passes by; a success passes
    /// through untouched.
    pub fn rethrow<T>(e: Result<T, Error>, name: &str, location: Location) -> (r: Result<T, Error>)
        ensures
            match e {
                Ok(_) => r == e,
                Err(err) => r matches Err(r2) && r2.model() == (ErrV {
                    message: err.model().message,
                    frames: err.model().frames.push(
                        FrameV { name: name@, location: location.model() },
                    ),
                }),
            },
    {
        match e {
            Err(v) => Err(v.push(name, location)),
            x => x,
        }
    }

    /// Pushes a stack frame onto the error.
    pub fn push(self, name: &str, location: Location) -> (r: Self)
        ensures
            r.model() == (ErrV {
                message: self.model().message,
                frames: self.model().frames.push(
                    FrameV { name: name@, location: location.model() },
                ),
            }),
    {
        let mut s = self;
        let ghost prev = s.frames@;
        s.frames.push(Frame { name: name.to_owned(), location });
        proof {
            assert(s.frames@.drop_last() =~= prev);
        }
        s
    }

    /// Pushes a stack frame onto the error and wraps it into a `Result::Err`.
    pub fn push_err<T>(self, name: &str, location: Location) -> (r: Result<T, Self>)
        ensures
            r matches Err(r2) && r2.model() == (ErrV {
                message: self.model().message,
                frames: self.model().frames.push(
                    FrameV { name: name@, location: location.model() },
                ),
            }),
    {
        Err(self.push(name, location))
    }

    /// Renders the error with its full trail.
    pub fn to_string(&self) -> (r: String)
        ensures
            r@ == error_text(self.model()),
    {
        let mut out = self.header();
        Self::render_frames(&mut out, &self.frames);
        proof {
            assert(out@ =~= error_text(self.model()));
        }
        out
    }

    /// Renders the error, hiding the frames whose names carry the internal
    /// marker.
    pub fn to_string_light(&self) -> (r: String)
        ensures
            r@ == error_text(
                ErrV {
                    message: self.model().message,
                    frames: visible_frames(self.model().frames),
                },
            ),
    {
        let mut kept: Vec<Frame> = Vec::new();
        let mut i: usize = 0;
        proof {
            lemma_model_frames(self.frames@);
            assert(self.frames@.subrange(0, 0) =~= Seq::<Frame>::empty());
        }
        while i < self.frames.len()
            invariant
                i <= self.frames@.len(),
                model_frames(kept@) == visible_frames(
                    model_frames(self.frames@.subrange(0, i as int)),
                ),
            decreases self.frames@.len() - i,
        {
            let f = &self.frames[i];
            let ghost prevkept = kept@;
            let keep: bool = if f.name.as_str().unicode_len() > 0 {
                f.name.as_str().get_char(0) != '#'
            } else {
                true
            };
            if keep {
                kept.push(Frame { name: f.name.clone(), location: f.location.duplicate() });
            }
            proof {
                let sub1 = self.frames@.subrange(0, i as int + 1);
                assert(sub1.drop_last() =~= self.frames@.subrange(0, i as int));
                assert(sub1.last() == self.frames@[i as int]);
                let m1 = model_frames(sub1);
                lemma_model_frames(sub1);
                assert(m1.drop_last() =~= model_frames(self.frames@.subrange(0, i as int)));
                assert(m1.last() == self.frames@[i as int].model());
                if keep {
                    assert(kept@.drop_last() =~= prevkept);
                    lemma_model_frames(kept@);
                    assert(model_frames(kept@) =~= model_frames(prevkept).push(
                        kept@.last().model(),
                    ));
                }
            }
            i = i + 1;
        }
        proof {
            assert(self.frames@.subrange(0, self.frames@.len() as int) =~= self.frames@);
        }
        let mut out = self.header();
        Self::render_frames(&mut out, &kept);
        proof {
            assert(out@ =~= error_text(
                ErrV {
                    message: self.model().message,
                    frames: visible_frames(self.model().frames),
                },
            ));
        }
        out
    }

    /// Renders the part of the error that precedes the trail.
    fn header(&self) -> (r: String)
        ensures
            r@ == "Evaluation error : "@ + self.model().message + "\n\nStacktrace :\n"@,
    {
        proof {
            reveal_strlit("Evaluation error : ");
            reveal_strlit("\n\nStacktrace :\n");
        }
        let mut out = String::from_str("Evaluation error : ");
        out.append(self.message.as_str());
        out.append("\n\nStacktrace :\n");
        proof {
            assert(out@ =~= "Evaluation error : "@ + self.model().message
                + "\n\nStacktrace :\n"@);
        }
        out
    }

    /// Renders a trail of frames, one line each, onto the given string.
    fn render_frames(out: &mut String, frames: &Vec<Frame>)
        ensures
            final(out)@ == old(out)@ + frames_text(model_frames(frames@)),
    {
        let mut i: usize = 0;
        let ghost base0 = out@;
        proof {
            lemma_model_frames(frames@);
            assert(model_frames(frames@.subrange(0, 0)) =~= Seq::<FrameV>::empty());
            assert(out@ =~= base0 + frames_text(model_frames(frames@.subrange(0, 0))));
        }
        while i < frames.len()
            invariant
                i <= frames@.len(),
                model_frames(frames@).len() == frames@.len(),
                forall|j: int| 0 <= j < frames@.len() ==> model_frames(frames@)[j] == frames@[j].model(),
                out@ == base0 + frames_text(model_frames(frames@.subrange(0, i as int))),
            decreases frames@.len() - i,
        {
            let line = Self::frame_text(&frames[i], i);
            out.append(line.as_str());
            proof {
                let m = model_frames(frames@);
                lemma_model_frames(frames@.subrange(0, i as int));
                lemma_model_frames(frames@.subrange(0, i as int + 1));
                assert(model_frames(frames@.subrange(0, i as int)) =~= m.subrange(0, i as int));
                assert(model_frames(frames@.subrange(0, i as int + 1)) =~= m.subrange(
                    0,
                    i as int + 1,
                ));
                assert(m.subrange(0, i as int + 1).drop_last() =~= m.subrange(0, i as int));
                assert(m.subrange(0, i as int + 1).last() == m[i as int]);
                assert(out@ =~= base0 + frames_text(m.subrange(0, i as int + 1)));
            }
            i = i + 1;
        }
        proof {
            assert(frames@.subrange(0, frames@.len() as int) =~= frames@);
            assert(out@ =~= old(out)@ + frames_text(model_frames(frames@)));
        }
    }

    /// Renders one frame's line of the trail.
    fn frame_text(f: &Frame, i: usize) -> (r: String)
        ensures
            r@ == frame_line(f.model(), i as nat),
    {
        proof {
            reveal_strlit("  ");
            reveal_strlit(">>>>");
            reveal_strlit(" : '");
            reveal_strlit("' ");
            reveal_strlit("\n");
        }
        let mut out = String::from_str("  ");
        if i == 0 {
            out.append(">>>>");
        } else {
            let num = Self::pad4_text(i);
            out.append(num.as_str());
        }
        out.append(" : '");
        out.append(f.name.as_str());
        out.append("' ");
        let loc = f.location.render();
        out.append(loc.as_str());
        out.append("\n");
        proof {
            assert(out@ =~= frame_line(f.model(), i as nat));
        }
        out
    }

    /// Renders a number zero-padded to four places.
    fn pad4_text(i: usize) -> (r: String)
        ensures
            r@ == pad4(i as nat),
    {
        let num = nat_text_u64(i as u64);
        let mut out = String::new();
        let n = num.as_str().unicode_len();
        if n < 4 {
            let mut w: usize = 0;
            let pad = 4 - n;
            proof {
                assert(zero_chars(0) =~= Seq::<char>::empty());
                assert(out@ =~= zero_chars(0));
            }
            while w < pad
                invariant
                    w <= pad,
                    out@ == zero_chars(w as nat),
                decreases pad - w,
            {
                crate::digits::push_digit_char(&mut out, 0);
                proof {
                    assert(zero_chars(w as nat).push('0') =~= zero_chars(w as nat + 1));
                }
                w = w + 1;
            }
        }
        out.append(num.as_str());
        proof {
            if nat_text(i as nat).len() >= 4 {
                assert(out@ =~= nat_text(i as nat));
            } else {
                assert(out@ =~= zero_chars((4 - nat_text(i as nat).len()) as nat) + nat_text(
                    i as nat,
                ));
            }
        }
        out
    }
}

} // verus!
