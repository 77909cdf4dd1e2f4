//! The bot shared between the one that refreshes it and the many that ask.
//!
//! The bot stands behind a lock. A refresh takes it out, changes it and
//! puts it back as a whole; an answer is computed from the bot as it stood
//! at one moment. So an answer never mixes the data of two snapshots.

use vstd::prelude::*;
use vstd::rwlock::RwLock;

use crate::bot::{Answer, Coronabot};
use crate::cache::{build_snapshot, RefreshError};
use crate::record::{series_wf, DailyRecord};

verus! {

/// A bot that many threads may use at once.
pub struct SharedBot {
    lock: RwLock<Coronabot, spec_fn(Coronabot) -> bool>,
    id: Ghost<Seq<char>>,
}

impl SharedBot {
    /// The lock holds a bot of this identifier, whatever its data.
    #[verifier::type_invariant]
    spec fn keeps_identifier(self) -> bool {
        forall|bot: Coronabot| #[trigger] self.lock.inv(bot) <==> bot.bot_id@ == self.id@
    }

    /// The identifier of the bot in the chat.
    pub closed spec fn bot_id(self) -> Seq<char> {
        self.id@
    }

    /// A shared bot that has no data yet.
    pub fn new(bot_id: String) -> (shared: SharedBot)
        ensures
            shared.bot_id() == bot_id@,
    {
        let ghost id = bot_id@;
        let bot = Coronabot::new(bot_id);
        let lock = RwLock::new(bot, Ghost(|held: Coronabot| held.bot_id@ == id));
        SharedBot { lock, id: Ghost(id) }
    }

    /// Publishes the snapshot that two feeds make; where a feed is
    /// malformed the bot keeps the data it had. Whoever asks meanwhile is
    /// answered from the data before the refresh or from the data after it.
    pub fn refresh(&self, national: Vec<DailyRecord>, regional: &Vec<DailyRecord>) -> (r: Result<
        (),
        RefreshError,
    >)
        ensures
            r is Ok <==> series_wf(national@) && series_wf(regional@),
            r matches Err(e) ==> e == RefreshError::Parse,
    {
        proof {
            use_type_invariant(self);
        }
        // The snapshot is made before the lock is taken, so the lock is
        // held for no longer than it takes to put the snapshot in place.
        match build_snapshot(national, regional) {
            Ok(snapshot) => {
                let (held, handle) = self.lock.acquire_write();
                let mut bot = held;
                bot.cache.install(snapshot);
                handle.release_write(bot);
                Ok(())
            },
            Err(e) => Err(e),
        }
    }

    /// The answer to a message in the chat. It is the answer of one bot of
    /// this identifier: all of it comes from the data as it stood at one
    /// moment.
    pub fn on_message(&self, text: &str) -> (answer: Answer)
        ensures
            exists|bot: Coronabot|
                bot.bot_id@ == self.bot_id() && #[trigger] bot.replies(text@, answer),
    {
        proof {
            use_type_invariant(self);
        }
        let handle = self.lock.acquire_read();
        let bot = handle.borrow();
        let answer = bot.on_message(text);
        assert(bot.bot_id@ == self.bot_id() && bot.replies(text@, answer));
        handle.release_read();
        answer
    }
}

} // verus!
