//! One record per server response, and the two capabilities through which the
//! shared decoders fill them.
use crate::common::StatusIndicator;
use vstd::prelude::*;

verus! {

/// A response of one line: a status indicator and free text.
pub trait OneLine<'a>: Default {
    /// The status indicator that the record holds.
    spec fn status(&self) -> StatusIndicator;

    /// The free text that the record holds.
    spec fn text(&self) -> Seq<u8>;

    fn status_indicator(&self) -> (si: &StatusIndicator)
        ensures
            *si == self.status(),
    ;

    fn set_status_indicator(&mut self, si: StatusIndicator)
        ensures
            final(self).status() == si,
            final(self).text() == old(self).text(),
    ;

    fn information(&self) -> (information: &[u8])
        ensures
            information@ == self.text(),
    ;

    fn set_information(&mut self, information: &'a [u8])
        ensures
            final(self).text() == information@,
            final(self).status() == old(self).status(),
    ;
}

/// A response that may carry a message body after its first line.
///
/// Both RETR and TOP may have a body.
pub trait HaveMessageBody<'a>: Default {
    /// The status indicator that the record holds.
    spec fn status(&self) -> StatusIndicator;

    /// The text of the first line.
    spec fn text(&self) -> Seq<u8>;

    /// The body; `None` where the record holds none, which differs from an
    /// empty body.
    spec fn body(&self) -> Option<Seq<u8>>;

    fn set_status_indicator(&mut self, si: StatusIndicator)
        ensures
            final(self).status() == si,
            final(self).text() == old(self).text(),
            final(self).body() == old(self).body(),
    ;

    fn set_message(&mut self, message: Option<&'a [u8]>)
        ensures
            final(self).body() == slice_model(message),
            final(self).status() == old(self).status(),
            final(self).text() == old(self).text(),
    ;

    fn set_information(&mut self, information: &'a [u8])
        ensures
            final(self).text() == information@,
            final(self).status() == old(self).status(),
            final(self).body() == old(self).body(),
    ;
}

/// The bytes of an optional span.
pub open spec fn slice_model(span: Option<&[u8]>) -> Option<Seq<u8>> {
    match span {
        Some(bytes) => Some(bytes@),
        None => None,
    }
}

/// The entries of a unique-id listing, each identifier as its bytes.
pub open spec fn unique_ids_model(entries: Seq<(usize, &[u8])>) -> Seq<(usize, Seq<u8>)> {
    Seq::new(entries.len(), |i: int| (entries[i].0, entries[i].1@))
}

/// The greeting that the server issues once the connection is open.
#[derive(Debug, PartialEq)]
pub struct Greeting<'a> {
    /// The status indicator: `+OK` or `-ERR`.
    pub status_indicator: StatusIndicator,
    /// The text that follows the status indicator; empty where none does.
    pub information: &'a [u8],
}

impl Default for Greeting<'_> {
    fn default() -> (r: Self)
        ensures
            r.status_indicator == StatusIndicator::OK,
            r.information@ == Seq::<u8>::empty(),
    {
        Greeting { status_indicator: StatusIndicator::OK, information: &[] }
    }
}

impl<'a> OneLine<'a> for Greeting<'a> {
    open spec fn status(&self) -> StatusIndicator {
        self.status_indicator
    }

    open spec fn text(&self) -> Seq<u8> {
        self.information@
    }

    fn status_indicator(&self) -> (si: &StatusIndicator) {
        &self.status_indicator
    }

    fn set_status_indicator(&mut self, si: StatusIndicator) {
        self.status_indicator = si;
    }

    fn information(&self) -> (information: &[u8]) {
        &self.information
    }

    fn set_information(&mut self, information: &'a [u8]) {
        self.information = information;
    }
}

/// The response to QUIT, in the AUTHORIZATION and in the UPDATE state.
#[derive(Debug, PartialEq)]
pub struct Quit<'a> {
    /// The status indicator: `+OK` or `-ERR`.
    pub status_indicator: StatusIndicator,
    /// The text that follows the status indicator; empty where none does.
    pub information: &'a [u8],
}

impl Default for Quit<'_> {
    fn default() -> (r: Self)
        ensures
            r.status_indicator == StatusIndicator::OK,
            r.information@ == Seq::<u8>::empty(),
    {
        Quit { status_indicator: StatusIndicator::OK, information: &[] }
    }
}

impl<'a> OneLine<'a> for Quit<'a> {
    open spec fn status(&self) -> StatusIndicator {
        self.status_indicator
    }

    open spec fn text(&self) -> Seq<u8> {
        self.information@
    }

    fn status_indicator(&self) -> (si: &StatusIndicator) {
        &self.status_indicator
    }

    fn set_status_indicator(&mut self, si: StatusIndicator) {
        self.status_indicator = si;
    }

    fn information(&self) -> (information: &[u8]) {
        &self.information
    }

    fn set_information(&mut self, information: &'a [u8]) {
        self.information = information;
    }
}

/// A status indicator and the text behind it, before either is given its
/// place in the record of a verb.
#[derive(Debug, PartialEq)]
pub struct OneLineTwoParts<'a> {
    /// The status indicator: `+OK` or `-ERR`.
    pub left: StatusIndicator,
    /// The text that follows the status indicator; empty where none does.
    pub right: &'a [u8],
}

impl Default for OneLineTwoParts<'_> {
    fn default() -> (r: Self)
        ensures
            r.left == StatusIndicator::OK,
            r.right@ == Seq::<u8>::empty(),
    {
        OneLineTwoParts { left: StatusIndicator::OK, right: &[] }
    }
}

impl<'a> OneLine<'a> for OneLineTwoParts<'a> {
    open spec fn status(&self) -> StatusIndicator {
        self.left
    }

    open spec fn text(&self) -> Seq<u8> {
        self.right@
    }

    fn status_indicator(&self) -> (si: &StatusIndicator) {
        &self.left
    }

    fn set_status_indicator(&mut self, si: StatusIndicator) {
        self.left = si;
    }

    fn information(&self) -> (information: &[u8]) {
        &self.right
    }

    fn set_information(&mut self, information: &'a [u8]) {
        self.right = information;
    }
}

/// The response to STAT.
#[derive(Debug, PartialEq)]
pub struct Stat<'a> {
    /// The status indicator: `+OK` or `-ERR`.
    pub status_indicator: StatusIndicator,
    /// The number of messages in the maildrop.
    pub number_of_messages: usize,
    /// The size of the maildrop in octets.
    pub size_in_octets: usize,
    /// The text that follows the status indicator; empty where the line
    /// holds the two numbers.
    pub information: &'a [u8],
}

/// The response to LIST \[*msg*\].
#[derive(Debug, PartialEq)]
pub struct List<'a> {
    /// The status indicator: `+OK` or `-ERR`.
    pub status_indicator: StatusIndicator,
    /// The scan listings in the order received: the message-number, then the
    /// size of the message in octets.
    pub informations: Vec<(usize, usize)>,
    /// The text that follows the status indicator.
    pub information: &'a [u8],
}

/// The response to UIDL \[*msg*\].
#[derive(Debug, PartialEq)]
pub struct Uidl<'a> {
    /// The status indicator: `+OK` or `-ERR`.
    pub status_indicator: StatusIndicator,
    /// The unique-id listings in the order received: the message-number, then
    /// the unique-id of the message.
    pub informations: Vec<(usize, &'a [u8])>,
    /// The text that follows the status indicator.
    pub information: &'a [u8],
}

/// The response to RETR msg.
#[derive(Debug, PartialEq)]
pub struct Retr<'a> {
    /// The status indicator: `+OK` or `-ERR`.
    pub status_indicator: StatusIndicator,
    /// The message body as one span; `None` where the record holds no body,
    /// which differs from an empty one.
    pub message: Option<&'a [u8]>,
    /// The text of the first line, behind the status indicator.
    pub information: &'a [u8],
}

impl Default for Retr<'_> {
    fn default() -> (r: Self)
        ensures
            r.status_indicator == StatusIndicator::OK,
            r.message is None,
            r.information@ == Seq::<u8>::empty(),
    {
        Retr { status_indicator: StatusIndicator::OK, message: None, information: &[] }
    }
}

impl<'a> HaveMessageBody<'a> for Retr<'a> {
    open spec fn status(&self) -> StatusIndicator {
        self.status_indicator
    }

    open spec fn text(&self) -> Seq<u8> {
        self.information@
    }

    open spec fn body(&self) -> Option<Seq<u8>> {
        slice_model(self.message)
    }

    fn set_status_indicator(&mut self, si: StatusIndicator) {
        self.status_indicator = si;
    }

    fn set_message(&mut self, message: Option<&'a [u8]>) {
        self.message = message;
    }

    fn set_information(&mut self, information: &'a [u8]) {
        self.information = information;
    }
}

/// The response to TOP msg n.
#[derive(Debug, PartialEq)]
pub struct Top<'a> {
    /// The status indicator: `+OK` or `-ERR`.
    pub status_indicator: StatusIndicator,
    /// The message body as one span; `None` where the record holds no body,
    /// which differs from an empty one.
    pub message: Option<&'a [u8]>,
    /// The text of the first line, behind the status indicator.
    pub information: &'a [u8],
}

impl Default for Top<'_> {
    fn default() -> (r: Self)
        ensures
            r.status_indicator == StatusIndicator::OK,
            r.message is None,
            r.information@ == Seq::<u8>::empty(),
    {
        Top { status_indicator: StatusIndicator::OK, message: None, information: &[] }
    }
}

impl<'a> HaveMessageBody<'a> for Top<'a> {
    open spec fn status(&self) -> StatusIndicator {
        self.status_indicator
    }

    open spec fn text(&self) -> Seq<u8> {
        self.information@
    }

    open spec fn body(&self) -> Option<Seq<u8>> {
        slice_model(self.message)
    }

    fn set_status_indicator(&mut self, si: StatusIndicator) {
        self.status_indicator = si;
    }

    fn set_message(&mut self, message: Option<&'a [u8]>) {
        self.message = message;
    }

    fn set_information(&mut self, information: &'a [u8]) {
        self.information = information;
    }
}

/// The response to DELE msg.
#[derive(Debug, PartialEq)]
pub struct Dele<'a> {
    /// The status indicator: `+OK` or `-ERR`.
    pub status_indicator: StatusIndicator,
    /// The text that follows the status indicator; empty where none does.
    pub information: &'a [u8],
}

impl Default for Dele<'_> {
    fn default() -> (r: Self)
        ensures
            r.status_indicator == StatusIndicator::OK,
            r.information@ == Seq::<u8>::empty(),
    {
        Dele { status_indicator: StatusIndicator::OK, information: &[] }
    }
}

impl<'a> OneLine<'a> for Dele<'a> {
    open spec fn status(&self) -> StatusIndicator {
        self.status_indicator
    }

    open spec fn text(&self) -> Seq<u8> {
        self.information@
    }

    fn status_indicator(&self) -> (si: &StatusIndicator) {
        &self.status_indicator
    }

    fn set_status_indicator(&mut self, si: StatusIndicator) {
        self.status_indicator = si;
    }

    fn information(&self) -> (information: &[u8]) {
        &self.information
    }

    fn set_information(&mut self, information: &'a [u8]) {
        self.information = information;
    }
}

/// The response to NOOP.
#[derive(Debug, PartialEq)]
pub struct Noop<'a> {
    /// The status indicator: `+OK` or `-ERR`.
    pub status_indicator: StatusIndicator,
    /// The text that follows the status indicator; empty where none does.
    pub information: &'a [u8],
}

impl Default for Noop<'_> {
    fn default() -> (r: Self)
        ensures
            r.status_indicator == StatusIndicator::OK,
            r.information@ == Seq::<u8>::empty(),
    {
        Noop { status_indicator: StatusIndicator::OK, information: &[] }
    }
}

impl<'a> OneLine<'a> for Noop<'a> {
    open spec fn status(&self) -> StatusIndicator {
        self.status_indicator
    }

    open spec fn text(&self) -> Seq<u8> {
        self.information@
    }

    fn status_indicator(&self) -> (si: &StatusIndicator) {
        &self.status_indicator
    }

    fn set_status_indicator(&mut self, si: StatusIndicator) {
        self.status_indicator = si;
    }

    fn information(&self) -> (information: &[u8]) {
        &self.information
    }

    fn set_information(&mut self, information: &'a [u8]) {
        self.information = information;
    }
}

/// The response to RSET.
#[derive(Debug, PartialEq)]
pub struct Rset<'a> {
    /// The status indicator: `+OK` or `-ERR`.
    pub status_indicator: StatusIndicator,
    /// The text that follows the status indicator; empty where none does.
    pub information: &'a [u8],
}

impl Default for Rset<'_> {
    fn default() -> (r: Self)
        ensures
            r.status_indicator == StatusIndicator::OK,
            r.information@ == Seq::<u8>::empty(),
    {
        Rset { status_indicator: StatusIndicator::OK, information: &[] }
    }
}

impl<'a> OneLine<'a> for Rset<'a> {
    open spec fn status(&self) -> StatusIndicator {
        self.status_indicator
    }

    open spec fn text(&self) -> Seq<u8> {
        self.information@
    }

    fn status_indicator(&self) -> (si: &StatusIndicator) {
        &self.status_indicator
    }

    fn set_status_indicator(&mut self, si: StatusIndicator) {
        self.status_indicator = si;
    }

    fn information(&self) -> (information: &[u8]) {
        &self.information
    }

    fn set_information(&mut self, information: &'a [u8]) {
        self.information = information;
    }
}

/// The response to USER name.
#[derive(Debug, PartialEq)]
pub struct User<'a> {
    /// The status indicator: `+OK` or `-ERR`.
    pub status_indicator: StatusIndicator,
    /// The text that follows the status indicator; empty where none does.
    pub information: &'a [u8],
}

impl Default for User<'_> {
    fn default() -> (r: Self)
        ensures
            r.status_indicator == StatusIndicator::OK,
            r.information@ == Seq::<u8>::empty(),
    {
        User { status_indicator: StatusIndicator::OK, information: &[] }
    }
}

impl<'a> OneLine<'a> for User<'a> {
    open spec fn status(&self) -> StatusIndicator {
        self.status_indicator
    }

    open spec fn text(&self) -> Seq<u8> {
        self.information@
    }

    fn status_indicator(&self) -> (si: &StatusIndicator) {
        &self.status_indicator
    }

    fn set_status_indicator(&mut self, si: StatusIndicator) {
        self.status_indicator = si;
    }

    fn information(&self) -> (information: &[u8]) {
        &self.information
    }

    fn set_information(&mut self, information: &'a [u8]) {
        self.information = information;
    }
}

/// The response to PASS string.
#[derive(Debug, PartialEq)]
pub struct Pass<'a> {
    /// The status indicator: `+OK` or `-ERR`.
    pub status_indicator: StatusIndicator,
    /// The text that follows the status indicator; empty where none does.
    pub information: &'a [u8],
}

impl Default for Pass<'_> {
    fn default() -> (r: Self)
        ensures
            r.status_indicator == StatusIndicator::OK,
            r.information@ == Seq::<u8>::empty(),
    {
        Pass { status_indicator: StatusIndicator::OK, information: &[] }
    }
}

impl<'a> OneLine<'a> for Pass<'a> {
    open spec fn status(&self) -> StatusIndicator {
        self.status_indicator
    }

    open spec fn text(&self) -> Seq<u8> {
        self.information@
    }

    fn status_indicator(&self) -> (si: &StatusIndicator) {
        &self.status_indicator
    }

    fn set_status_indicator(&mut self, si: StatusIndicator) {
        self.status_indicator = si;
    }

    fn information(&self) -> (information: &[u8]) {
        &self.information
    }

    fn set_information(&mut self, information: &'a [u8]) {
        self.information = information;
    }
}

/// The response to APOP name digest.
#[derive(Debug, PartialEq)]
pub struct Apop<'a> {
    /// The status indicator: `+OK` or `-ERR`.
    pub status_indicator: StatusIndicator,
    /// The text that follows the status indicator; empty where none does.
    pub information: &'a [u8],
}

impl Default for Apop<'_> {
    fn default() -> (r: Self)
        ensures
            r.status_indicator == StatusIndicator::OK,
            r.information@ == Seq::<u8>::empty(),
    {
        Apop { status_indicator: StatusIndicator::OK, information: &[] }
    }
}

impl<'a> OneLine<'a> for Apop<'a> {
    open spec fn status(&self) -> StatusIndicator {
        self.status_indicator
    }

    open spec fn text(&self) -> Seq<u8> {
        self.information@
    }

    fn status_indicator(&self) -> (si: &StatusIndicator) {
        &self.status_indicator
    }

    fn set_status_indicator(&mut self, si: StatusIndicator) {
        self.status_indicator = si;
    }

    fn information(&self) -> (information: &[u8]) {
        &self.information
    }

    fn set_information(&mut self, information: &'a [u8]) {
        self.information = information;
    }
}

} // verus!
