# Trading engines

Three engines that follow perpetual contracts on an exchange, open and close trades by
simple rules, and show what they do on web pages.

* `grid`: levels half a percent apart around a first price; a trade against the move
  whenever a level is crossed.
* `top`: a symbol is watched for one side, stopped out half a percent against it, and
  entered again where the price passes the first entry.
* `william`: three smoothed averages of closes, the alligator; a trade whenever they fall
  into line, with pauses of ghost trades after a loss.

`src/` is the library, verified with Verus: the rules, their scores on past bars, the
pages and charts, the texts that are exchanged with the stream and the exchange, and the
binary64 arithmetic that all of it is computed with. Numbers are bit patterns there
(`num`), with an exact meaning over integers (`rounding`), so that every price, stop and
gain in a contract is the one that is computed.

* `num`, `rounding`, `big`, `numeral`, `figures`: numbers, reading them, the constants.
* `arithmetic`, `accuracy`, `percentages`, `scaling`: what holds of them.
* `text`, `time`, `json`, `symbols`, `table`, `roster`, `order`, `config`: the rest of the
  groundwork.
* `market`, `stream`, `link`, `routes`, `page`, `parts`, `drawing`: what the engines share.
* `exchange`: signed requests, orders, replies.
* `grid`, `top`, `william`: the engines. Each has a `tracker` for one symbol, an `engine`
  for all of them, its `pages`, `chart` and `routes`, and its `laws`; `grid` and `william`
  also score a symbol by its past bars (`score`).

`app/` is the program around it: the web server, the connections, the files, and how a
number is written on a page.

    trading_engines [port] [grid|top|william]

The accounts are read from `config.json`.
