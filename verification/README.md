# pruning_args

A verified library for the pruning settings of a node: the pruning flags
(`args`), the receipts log filter syntax `<address>:<prune_mode>[,...]`
(`receipts_log`, with `address`, `decimal` and `text` for its parts), and the
prune configuration the flags ask for (`types`). `laws` holds the proved
properties that span these functions. `app/` holds the command-line (clap)
definition of the flags.
