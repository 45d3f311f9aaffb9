# chatter

An IRC-like peer-to-peer chat client, with its logic verified in Verus.

- `src/` is the library: the message format and its codec, the answers that peers get, the peer
  book, the commands and the terminal. Each function has a contract that is proved. `framing`,
  `composing` and `exchange` prove what holds of several functions together. What the library takes
  from `bytes`, `byteorder`, `crc` and the standard library is declared in `buffers`, `wire`,
  `clock` and `text`, and each such item says what is believed of it.
- `app/` is the program: sockets, standard input and output, and the tasks that run them. It tells
  which words are addresses and how IPv6 addresses are written, and leaves the other decisions to the
  library.
- `tests/` runs the library from outside.

Start the program with the address to listen on and the name to go by. It prints what can be typed.
