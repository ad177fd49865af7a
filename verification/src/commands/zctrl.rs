//! Z-Controller commands.

use vstd::prelude::*;

use crate::codec::CodecWrite;
use crate::commands::{lemma_printable_name_fits, Command};

verus! {

/// Withdraws the tip.
/// This function switches off the Z-Controller and then fully withdraws the tip (to the upper limit of the Z-piezo range).
pub struct Withdraw;

impl Command for Withdraw {
    const NAME: &'static str = "ZCtrl.Withdraw";

    type Args = WithdrawArgs;

    type Response = ();

    proof fn lemma_name_fits() {
        reveal_strlit("ZCtrl.Withdraw");
        lemma_printable_name_fits(Self::NAME);
    }
}

impl Withdraw {
    /// The name of this command is `"ZCtrl.Withdraw"`.
    pub proof fn lemma_name()
        ensures
            <Withdraw as Command>::NAME@ == "ZCtrl.Withdraw"@,
    {
    }
}

/// The arguments of [`Withdraw`].
#[derive(Debug)]
pub struct WithdrawArgs {
    /// whether the function waits until the tip is fully withdrawn
    pub wait_finished: bool,
    /// how many milliseconds to wait; `None` waits indefinitely
    pub timeout: Option<u128>,
}

impl DeepView for WithdrawArgs {
    type V = (bool, Option<u128>);

    open spec fn deep_view(&self) -> (bool, Option<u128>) {
        (self.wait_finished.deep_view(), self.timeout.deep_view())
    }
}

impl CodecWrite for WithdrawArgs {
    open spec fn spec_encode(v: (bool, Option<u128>)) -> Seq<u8> {
        <(bool, Option<u128>)>::spec_encode(v)
    }

    fn codec_write(&self, out: &mut Vec<u8>) {
        let ghost start = out@;
        self.wait_finished.codec_write(out);
        self.timeout.codec_write(out);
        assert(out@ =~= start + Self::spec_encode(self.deep_view()));
    }

    fn codec_len(&self) -> usize {
        self.wait_finished.codec_len() + self.timeout.codec_len()
    }
}

impl WithdrawArgs {
    /// The body holds `wait_finished` and `timeout`, one after the other in
    /// this order, each in its own wire form.
    pub proof fn lemma_wire_layout(
        wait_finished: bool,
        timeout: Option<u128>,
    )
        ensures
            WithdrawArgs::spec_encode((wait_finished, timeout)) == bool::spec_encode(wait_finished)
                + <Option<u128>>::spec_encode(timeout),
    {
        assert(WithdrawArgs::spec_encode((wait_finished, timeout)) =~= bool::spec_encode(wait_finished)
            + <Option<u128>>::spec_encode(timeout));
    }
}

/// Switches the Z-Controller On or Off.
pub struct OnOffSet;

impl Command for OnOffSet {
    const NAME: &'static str = "ZCtrl.OnOffSet";

    type Args = OnOffSetArgs;

    type Response = ();

    proof fn lemma_name_fits() {
        reveal_strlit("ZCtrl.OnOffSet");
        lemma_printable_name_fits(Self::NAME);
    }
}

impl OnOffSet {
    /// The name of this command is `"ZCtrl.OnOffSet"`.
    pub proof fn lemma_name()
        ensures
            <OnOffSet as Command>::NAME@ == "ZCtrl.OnOffSet"@,
    {
    }
}

/// The arguments of [`OnOffSet`].
#[derive(Debug)]
pub struct OnOffSetArgs {
    /// switches the controller on (true) or off (false)
    pub status: bool,
}

impl DeepView for OnOffSetArgs {
    type V = bool;

    open spec fn deep_view(&self) -> bool {
        self.status.deep_view()
    }
}

impl CodecWrite for OnOffSetArgs {
    open spec fn spec_encode(v: bool) -> Seq<u8> {
        bool::spec_encode(v)
    }

    fn codec_write(&self, out: &mut Vec<u8>) {
        self.status.codec_write(out);
    }

    fn codec_len(&self) -> usize {
        self.status.codec_len()
    }
}

impl OnOffSetArgs {
    /// The body is `status` in its own wire form.
    pub proof fn lemma_wire_layout(
        status: bool,
    )
        ensures
            OnOffSetArgs::spec_encode(status) == bool::spec_encode(status),
    {
        assert(OnOffSetArgs::spec_encode(status) =~= bool::spec_encode(status));
    }
}
} // verus!
