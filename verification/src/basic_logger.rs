//! A logger that writes every message to the terminal and to one aggregate
//! file, `All` in the directory it was created for.
use vstd::prelude::*;
use crate::logging::{Delivery, Sink, SinkView, all_name, delivery_views};
use crate::paths::{join_path, spec_join};

verus! {

/// Where the messages of a [`Logger`] go.
pub struct Logger {
    all_path: String,
}

impl Logger {
    /// The path of the aggregate file.
    pub closed spec fn all_file(&self) -> Seq<char> {
        self.all_path@
    }

    /// A logger whose aggregate file is `All` in `dir`.
    pub fn new(dir: String) -> (r: Logger)
        ensures
            r.all_file() == spec_join(dir@, all_name()),
    {
        let name = "All";
        proof {
            reveal_strlit("All");
            assert(name@ =~= all_name());
        }
        Logger { all_path: join_path(dir.as_str(), name) }
    }

    /// The path of the file the aggregate sink writes to.
    pub fn all_path(&self) -> (p: String)
        ensures
            p@ == self.all_file(),
    {
        self.all_path.clone()
    }

    /// The writes of a message: to the terminal, then to the aggregate file.
    pub fn log(&self, msg: String) -> (out: Vec<Delivery>)
        ensures
            delivery_views(out@) == seq![
                (SinkView::Output, msg@),
                (SinkView::File(all_name()), msg@),
            ],
    {
        let name = String::from_str("All");
        proof {
            reveal_strlit("All");
            assert(name@ =~= all_name());
        }
        let mut out: Vec<Delivery> = Vec::new();
        out.push(Delivery { sink: Sink::Output, msg: msg.clone() });
        out.push(Delivery { sink: Sink::File(name), msg });
        proof {
            assert(delivery_views(out@) =~= seq![
                (SinkView::Output, msg@),
                (SinkView::File(all_name()), msg@),
            ]);
        }
        out
    }
}

} // verus!
