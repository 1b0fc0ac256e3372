//! The requests that come in from outside, one line of text each: a
//! command word, and for the commands on a session the name of its
//! interface, with white space between and around them.

use crate::dhcp_manager::MozimDhcpCmd;
use crate::error::DhcpError;
use crate::error::ErrorKind;
use vstd::prelude::*;
use vstd::string::StrSliceExecFns;
use vstd::string::StringExecFns;

verus! {

/// A request.
#[derive(Debug, Clone, PartialEq, Eq)]
pub enum Request {
    Ping,
    Start(String),
    Stop(String),
    Query(String),
    Dump,
}

/// A request as mathematics.
pub enum RequestView {
    Ping,
    Start(Seq<char>),
    Stop(Seq<char>),
    Query(Seq<char>),
    Dump,
}

impl View for Request {
    type V = RequestView;

    open spec fn view(&self) -> RequestView {
        match self {
            Request::Ping => RequestView::Ping,
            Request::Start(iface) => RequestView::Start(iface@),
            Request::Stop(iface) => RequestView::Stop(iface@),
            Request::Query(iface) => RequestView::Query(iface@),
            Request::Dump => RequestView::Dump,
        }
    }
}

/// White space between words: blank, tab, line feed, form feed, carriage
/// return.
pub open spec fn is_space(c: char) -> bool {
    c == ' ' || c == '\t' || c == '\n' || c == '\x0c' || c == '\r'
}

/// The words of `s`, in order. White space ends a word; any other
/// character lengthens the word that the character before it belongs to,
/// or begins a word after white space and at the start.
pub open spec fn words(s: Seq<char>) -> Seq<Seq<char>>
    decreases s.len(),
{
    if s.len() == 0 {
        Seq::empty()
    } else {
        let before = words(s.drop_last());
        if is_space(s.last()) {
            before
        } else if s.len() >= 2 && !is_space(s[s.len() - 2]) {
            before.drop_last().push(before.last().push(s.last()))
        } else {
            before.push(seq![s.last()])
        }
    }
}

/// The request that a line makes: `ping` and `dump` stand alone, `start`,
/// `stop` and `query` take the name of an interface. Any other line makes
/// none.
pub open spec fn request_of(line: Seq<char>) -> Option<RequestView> {
    let w = words(line);
    if w.len() == 1 && w[0] == "ping"@ {
        Some(RequestView::Ping)
    } else if w.len() == 1 && w[0] == "dump"@ {
        Some(RequestView::Dump)
    } else if w.len() == 2 && w[0] == "start"@ {
        Some(RequestView::Start(w[1]))
    } else if w.len() == 2 && w[0] == "stop"@ {
        Some(RequestView::Stop(w[1]))
    } else if w.len() == 2 && w[0] == "query"@ {
        Some(RequestView::Query(w[1]))
    } else {
        None
    }
}

fn is_space_char(c: char) -> (r: bool)
    ensures
        r == is_space(c),
{
    c == ' ' || c == '\t' || c == '\n' || c == '\x0c' || c == '\r'
}

fn same_text(a: &str, b: &str) -> (r: bool)
    ensures
        r == (a@ == b@),
{
    String::from_str(a) == String::from_str(b)
}

/// Reads one request line. A line that makes no request (an unknown
/// command, a missing or a surplus word) is refused.
pub fn parse_request(line: &str) -> (r: Result<Request, DhcpError>)
    ensures
        r is Ok <==> request_of(line@) is Some,
        r matches Ok(request) ==> Some(request@) == request_of(line@),
        r matches Err(e) ==> e.kind == ErrorKind::InvalidArgument,
{
    let n = line.unicode_len();
    let ghost s = line@;
    let mut count: usize = 0;
    let mut first: (usize, usize) = (0, 0);
    let mut second: (usize, usize) = (0, 0);
    let mut in_word: bool = false;
    let mut i: usize = 0;
    while i < n
        invariant
            i <= n,
            n == s.len(),
            s == line@,
            count <= i,
            words(s.subrange(0, i as int)).len() == count,
            in_word <==> i > 0 && !is_space(s[i - 1]),
            in_word ==> count >= 1,
            count >= 1 ==> first.0 <= first.1 <= i && words(s.subrange(0, i as int))[0]
                == s.subrange(first.0 as int, first.1 as int),
            count >= 2 ==> second.0 <= second.1 <= i && words(s.subrange(0, i as int))[1]
                == s.subrange(second.0 as int, second.1 as int),
            in_word && count == 1 ==> first.1 == i,
            in_word && count == 2 ==> second.1 == i,
        decreases n - i,
    {
        let c = line.get_char(i);
        let ghost before = words(s.subrange(0, i as int));
        let ghost after = words(s.subrange(0, i + 1));
        proof {
            assert(s.subrange(0, i + 1).drop_last() =~= s.subrange(0, i as int));
            assert(s.subrange(0, i + 1).last() == c);
            if i > 0 {
                assert(s.subrange(0, i + 1)[i - 1] == s[i - 1]);
            }
        }
        if is_space_char(c) {
            in_word = false;
        } else if in_word {
            proof {
                assert(after == before.drop_last().push(before.last().push(c)));
                assert(forall|j: int| 0 <= j < before.len() - 1 ==> after[j] == before[j]);
            }
            if count == 1 {
                assert(s.subrange(first.0 as int, i as int).push(c) =~= s.subrange(
                    first.0 as int,
                    i + 1,
                ));
                first = (first.0, i + 1);
            } else if count == 2 {
                assert(s.subrange(second.0 as int, i as int).push(c) =~= s.subrange(
                    second.0 as int,
                    i + 1,
                ));
                second = (second.0, i + 1);
            }
        } else {
            proof {
                assert(after == before.push(seq![c]));
                assert(forall|j: int| 0 <= j < before.len() ==> after[j] == before[j]);
                assert(seq![c] =~= s.subrange(i as int, i + 1));
            }
            if count == 0 {
                first = (i, i + 1);
            } else if count == 1 {
                second = (i, i + 1);
            }
            count = count + 1;
            in_word = true;
        }
        i = i + 1;
    }
    proof {
        assert(s.subrange(0, n as int) =~= s);
    }
    if count == 1 {
        let command = line.substring_char(first.0, first.1);
        if same_text(command, "ping") {
            return Ok(Request::Ping);
        } else if same_text(command, "dump") {
            return Ok(Request::Dump);
        }
    } else if count == 2 {
        let command = line.substring_char(first.0, first.1);
        let iface = line.substring_char(second.0, second.1);
        if same_text(command, "start") {
            return Ok(Request::Start(String::from_str(iface)));
        } else if same_text(command, "stop") {
            return Ok(Request::Stop(String::from_str(iface)));
        } else if same_text(command, "query") {
            return Ok(Request::Query(String::from_str(iface)));
        }
    }
    Err(DhcpError::invalid_argument(String::from_str("Invalid request: ").concat(line)))
}

impl Request {
    /// The interface that the request is about and what it asks of the
    /// manager of that interface; none for the requests that are about no
    /// session.
    pub fn command(&self) -> (r: Option<(&str, MozimDhcpCmd)>)
        ensures
            match self@ {
                RequestView::Start(iface) => r matches Some((name, cmd)) && name@ == iface && cmd
                    == MozimDhcpCmd::StartDhcp,
                RequestView::Stop(iface) => r matches Some((name, cmd)) && name@ == iface && cmd
                    == MozimDhcpCmd::StopDhcp,
                RequestView::Query(iface) => r matches Some((name, cmd)) && name@ == iface && cmd
                    == MozimDhcpCmd::QueryDhcp,
                RequestView::Ping => r is None,
                RequestView::Dump => r is None,
            },
    {
        match self {
            Request::Start(iface) => Some((iface.as_str(), MozimDhcpCmd::StartDhcp)),
            Request::Stop(iface) => Some((iface.as_str(), MozimDhcpCmd::StopDhcp)),
            Request::Query(iface) => Some((iface.as_str(), MozimDhcpCmd::QueryDhcp)),
            Request::Ping => None,
            Request::Dump => None,
        }
    }
}

} // verus!
